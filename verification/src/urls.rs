//! URL parsing, through the `url` crate. A parsed URL is held as the plain
//! parts the library reads; what `url` returns is named, not restated.
use vstd::prelude::*;

use crate::errors::opt_str;

verus! {

/// The parts of a parsed absolute URL that the library reads.
#[derive(Debug)]
pub struct ParsedUrl {
    /// The full serialization (`Url::as_str`, also what `to_string` gives).
    pub serialization: String,
    /// The lower-cased scheme (`Url::scheme`).
    pub scheme: String,
    /// The host (`Url::host_str`).
    pub host: Option<String>,
    /// The user name, empty when absent (`Url::username`).
    pub username: String,
    /// The password (`Url::password`).
    pub password: Option<String>,
    /// The explicit, non-default port (`Url::port`).
    pub port: Option<u16>,
    /// The path (`Url::path`).
    pub path: String,
}

/// The view of a parsed URL.
pub ghost struct UrlView {
    pub serialization: Seq<char>,
    pub scheme: Seq<char>,
    pub host: Option<Seq<char>>,
    pub username: Seq<char>,
    pub password: Option<Seq<char>>,
    pub port: Option<u16>,
    pub path: Seq<char>,
}

impl View for ParsedUrl {
    type V = UrlView;

    open spec fn view(&self) -> UrlView {
        UrlView {
            serialization: self.serialization@,
            scheme: self.scheme@,
            host: match self.host {
                Some(h) => Some(h@),
                None => None,
            },
            username: self.username@,
            password: match self.password {
                Some(p) => Some(p@),
                None => None,
            },
            port: self.port,
            path: self.path@,
        }
    }
}

/// What `url::Url::parse` makes of `input`: the parsed URL, or the text of the
/// error it reports.
pub uninterp spec fn spec_url_parse(input: Seq<char>) -> Result<UrlView, Seq<char>>;

/// The serialization of what `url::Url::join` makes of `input` against the URL
/// that `base` serializes.
pub uninterp spec fn spec_url_join(base: Seq<char>, input: Seq<char>) -> Option<Seq<char>>;

/// The serialization of the URL parsed from `input` once `set_path(path)`,
/// `set_query(query)` and `set_fragment(fragment)` have been applied to it.
pub uninterp spec fn spec_url_with_parts(
    input: Seq<char>,
    path: Seq<char>,
    query: Option<Seq<char>>,
    fragment: Option<Seq<char>>,
) -> Option<Seq<char>>;

/// `url::Url::parse`: the parts of the absolute URL `input` denotes, or the
/// text (`Display`) of the parse error the crate reports. The contract claims
/// only that the result is a function of `input`, under the name `spec_url_parse`.
#[verifier::external_body]
pub(crate) fn url_parse(input: &str) -> (r: Result<ParsedUrl, String>)
    ensures
        match r {
            Ok(p) => spec_url_parse(input@) == Ok::<UrlView, Seq<char>>(p@),
            Err(e) => spec_url_parse(input@) == Err::<UrlView, Seq<char>>(e@),
        },
{
    match url::Url::parse(input) {
        Ok(u) => Ok(ParsedUrl {
            serialization: u.as_str().to_string(),
            scheme: u.scheme().to_string(),
            host: u.host_str().map(|h| h.to_string()),
            username: u.username().to_string(),
            password: u.password().map(|p| p.to_string()),
            port: u.port(),
            path: u.path().to_string(),
        }),
        Err(e) => Err(e.to_string()),
    }
}

impl ParsedUrl {
    /// Parses an absolute URL: its parts, or the text of the parse error.
    pub fn parse(input: &str) -> (r: Result<ParsedUrl, String>)
        ensures
            match r {
                Ok(p) => spec_url_parse(input@) == Ok::<UrlView, Seq<char>>(p@),
                Err(e) => spec_url_parse(input@) == Err::<UrlView, Seq<char>>(e@),
            },
    {
        url_parse(input)
    }
}

/// `url::Url::join`: the serialization of `input` resolved against the URL that
/// `base` serializes, or `None` when the crate reports an error. The contract claims only that the
/// result is a function of both arguments, under the name `spec_url_join`.
#[verifier::external_body]
pub(crate) fn url_join(base: &str, input: &str) -> (r: Option<String>)
    ensures
        match r {
            Some(s) => spec_url_join(base@, input@) == Some(s@),
            None => spec_url_join(base@, input@) is None,
        },
{
    match url::Url::parse(base).and_then(|b| b.join(input)) {
        Ok(u) => Some(u.to_string()),
        Err(_) => None,
    }
}

/// `url::Url::parse(input)`, then `set_path(path)`, `set_query(query)` and
/// `set_fragment(fragment)` on the parsed URL, serialized; `None` when the
/// parse reports an error (the same parse as `url_parse`). The contract
/// claims that, and names the result under `spec_url_with_parts`.
#[verifier::external_body]
pub(crate) fn url_with_parts(input: &str, path: &str, query: Option<&str>, fragment: Option<&str>) -> (r: Option<String>)
    ensures
        r is Some <==> spec_url_parse(input@) is Ok,
        match r {
            Some(s) => spec_url_with_parts(input@, path@, opt_str(query), opt_str(fragment)) == Some(s@),
            None => spec_url_with_parts(input@, path@, opt_str(query), opt_str(fragment)) is None,
        },
{
    match url::Url::parse(input) {
        Ok(mut u) => {
            u.set_path(path);
            u.set_query(query);
            u.set_fragment(fragment);
            Some(u.to_string())
        },
        Err(_) => None,
    }
}

} // verus!
