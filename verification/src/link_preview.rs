//! Link previews of Substack Notes: the first web link of a note, whether
//! its preview shows, and the title, description and image a page declares.
use vstd::prelude::*;

use crate::chars::{chars_of, str_eq, string_from_chars};
use crate::errors::{is_validation, opt_seq, validation, AppError};
use crate::text::{
    ascii_lowercase, concat3, contains, decimal, lemma_trim_end_while_at, matches_at, slice_chars,
    spec_ascii_lowercase, spec_contains, spec_decimal, spec_is_whitespace, spec_matches_at,
    spec_trim, spec_trim_end_while, trim,
};
use crate::urls::{spec_url_join, spec_url_parse, url_join, url_parse, ParsedUrl, UrlView};

verus! {

/// A character that ends a link in running text.
pub open spec fn spec_is_link_end(c: char) -> bool {
    spec_is_whitespace(c) || c == '<' || c == '>' || c == '"' || c == '\''
}

/// Punctuation that closes a sentence or markup, not a link.
pub open spec fn spec_is_link_trailing(c: char) -> bool {
    c == '.' || c == ',' || c == '!' || c == '?' || c == ';' || c == ':' || c == ')' || c == ']'
        || c == '}'
}

/// The end of the link that starts at `i`.
pub open spec fn spec_link_end(s: Seq<char>, i: int) -> int
    decreases s.len() - i,
{
    if i < 0 || i >= s.len() || spec_is_link_end(s[i]) {
        i
    } else {
        spec_link_end(s, i + 1)
    }
}

/// The link text that starts at `i`, without trailing punctuation.
pub open spec fn spec_link_text(s: Seq<char>, i: int) -> Seq<char> {
    spec_trim_end_while(s.subrange(i, spec_link_end(s, i)), |c: char| spec_is_link_trailing(c))
}

/// A parsed link a preview can show: http or https with a host.
pub open spec fn spec_web_url(u: UrlView) -> bool {
    (u.scheme == "http"@ || u.scheme == "https"@) && u.host is Some
}

/// A link text that parses to a web URL.
pub open spec fn spec_parses_to_web_url(t: Seq<char>) -> bool {
    match spec_url_parse(t) {
        Ok(u) => spec_web_url(u),
        Err(_) => false,
    }
}

/// Whether a link starts at `i`.
pub open spec fn spec_link_starts(s: Seq<char>, i: int) -> bool {
    spec_matches_at(s, "https://"@, i) || spec_matches_at(s, "http://"@, i)
}

/// The first web link of `s` from position `i` on.
pub open spec fn spec_first_link_from(s: Seq<char>, i: int) -> Option<UrlView>
    decreases s.len() - i,
{
    if i < 0 || i >= s.len() {
        None
    } else if spec_link_starts(s, i) && spec_parses_to_web_url(spec_link_text(s, i)) {
        match spec_url_parse(spec_link_text(s, i)) {
            Ok(u) => Some(u),
            Err(_) => None,
        }
    } else {
        spec_first_link_from(s, i + 1)
    }
}

/// The first web link of a note.
pub open spec fn spec_first_link(s: Seq<char>) -> Option<UrlView> {
    spec_first_link_from(s, 0)
}

proof fn lemma_link_end_bounds(s: Seq<char>, i: int)
    requires
        0 <= i <= s.len(),
    ensures
        i <= spec_link_end(s, i) <= s.len(),
    decreases s.len() - i,
{
    if i < s.len() && !spec_is_link_end(s[i]) {
        lemma_link_end_bounds(s, i + 1);
    }
}

fn link_text(s: &Vec<char>, i: usize) -> (t: String)
    requires
        i <= s@.len(),
    ensures
        t@ == spec_link_text(s@, i as int),
{
    let mut e = i;
    while e < s.len() && !(crate::text::is_whitespace(s[e]) || s[e] == '<' || s[e] == '>' || s[e]
        == '"' || s[e] == '\'')
        invariant
            i <= e <= s@.len(),
            spec_link_end(s@, e as int) == spec_link_end(s@, i as int),
        decreases s.len() - e,
    {
        e = e + 1;
    }
    let raw = slice_chars(s, i, e);
    let n = raw.len();
    let mut k: usize = n;
    while k > 0 && (raw[k - 1] == '.' || raw[k - 1] == ',' || raw[k - 1] == '!' || raw[k - 1]
        == '?' || raw[k - 1] == ';' || raw[k - 1] == ':' || raw[k - 1] == ')' || raw[k - 1] == ']'
        || raw[k - 1] == '}')
        invariant
            n == raw@.len(),
            0 <= k <= n,
            forall|j: int| k <= j < n ==> spec_is_link_trailing(raw@[j]),
        decreases k,
    {
        k = k - 1;
    }
    proof {
        lemma_trim_end_while_at(raw@, |c: char| spec_is_link_trailing(c), k as int);
    }
    let t = slice_chars(&raw, 0, k);
    string_from_chars(t.as_slice())
}

/// The first web link of a note.
pub fn detect_first_link(text: &str) -> (r: Option<ParsedUrl>)
    ensures
        match r {
            Some(u) => spec_first_link(text@) == Some(u@),
            None => spec_first_link(text@) is None,
        },
{
    let s = chars_of(text);
    let https = chars_of("https://");
    let http = chars_of("http://");
    let mut i: usize = 0;
    while i < s.len()
        invariant
            s@ == text@,
            https@ == "https://"@,
            http@ == "http://"@,
            0 <= i <= s@.len(),
            spec_first_link(s@) == spec_first_link_from(s@, i as int),
        decreases s.len() - i,
    {
        if matches_at(&s, &https, i) || matches_at(&s, &http, i) {
            let raw = link_text(&s, i);
            match url_parse(raw.as_str()) {
                Ok(u) => {
                    if (str_eq(u.scheme.as_str(), "http") || str_eq(u.scheme.as_str(), "https"))
                        && u.host.is_some() {
                        return Some(u);
                    }
                },
                Err(_) => {},
            }
        }
        i = i + 1;
    }
    None
}

/// Whether a note's link preview shows.
#[derive(Debug)]
pub struct LinkPreviewState {
    pub status: &'static str,
    pub url: Option<String>,
    pub domain: Option<String>,
    pub reason: Option<&'static str>,
}

/// The preview of a note's first link: `not_found` without one;
/// `suppressed_by_media` when the post carries media, which LinkedIn shows
/// instead; else `found`.
pub open spec fn spec_preview_state(st: LinkPreviewState, text: Seq<char>, suppressed_by_media: bool) -> bool {
    match spec_first_link(text) {
        None => st.status@ == "not_found"@ && st.url is None && st.domain is None && st.reason is None,
        Some(u) => opt_seq(st.url) == Some(u.serialization) && opt_seq(st.domain) == u.host && if suppressed_by_media {
            st.status@ == "suppressed_by_media"@ && crate::errors::opt_str(st.reason) == Some(
                "linkedin_native_media_takes_precedence"@,
            )
        } else {
            st.status@ == "found"@ && st.reason is None
        },
    }
}

/// Whether a note's link preview shows.
pub fn preview_state(text: &str, suppressed_by_media: bool) -> (st: LinkPreviewState)
    ensures
        spec_preview_state(st, text@, suppressed_by_media),
{
    let url = match detect_first_link(text) {
        Some(u) => u,
        None => {
            return LinkPreviewState { status: "not_found", url: None, domain: None, reason: None };
        },
    };
    let domain = crate::errors::copy_opt(&url.host);
    if suppressed_by_media {
        return LinkPreviewState {
            status: "suppressed_by_media",
            url: Some(url.serialization),
            domain,
            reason: Some("linkedin_native_media_takes_precedence"),
        };
    }
    LinkPreviewState { status: "found", url: Some(url.serialization), domain, reason: None }
}

/// The `content` attribute of each element of `html` that `selector`
/// matches, in document order (`None` for an element without one); no
/// element when the selector does not parse.
pub uninterp spec fn spec_html_content_attrs(html: Seq<char>, selector: Seq<char>) -> Seq<Option<Seq<char>>>;

/// The first present value of a list, if any.
pub open spec fn spec_first_some(v: Seq<Option<Seq<char>>>) -> Option<Seq<char>>
    decreases v.len(),
{
    if v.len() == 0 {
        None
    } else if v[0] is Some {
        v[0]
    } else {
        spec_first_some(v.drop_first())
    }
}

/// The `content` attribute of the first element of `html` that `selector`
/// matches and that has one.
pub open spec fn spec_html_first_content(html: Seq<char>, selector: Seq<char>) -> Option<Seq<char>> {
    spec_first_some(spec_html_content_attrs(html, selector))
}

/// The text of the first element of `html` that `selector` matches.
pub uninterp spec fn spec_html_first_text(html: Seq<char>, selector: Seq<char>) -> Option<Seq<char>>;

/// `scraper`: parses `html` as a document and returns the `content`
/// attribute (`Element::attr`) of each element `selector` matches, in
/// document order; no element when `Selector::parse` reports an error. The
/// contract names the list only.
#[verifier::external_body]
fn html_content_attrs(html: &str, selector: &str) -> (r: Vec<Option<String>>)
    ensures
        r@.map_values(|o: Option<String>| opt_seq(o)) == spec_html_content_attrs(html@, selector@),
{
    let document = scraper::Html::parse_document(html);
    let Ok(selector) = scraper::Selector::parse(selector) else {
        return Vec::new();
    };
    document.select(&selector).map(|element| element.value().attr("content").map(str::to_string)).collect()
}

/// The `content` attribute of the first matching element that has one.
fn html_first_content(html: &str, selector: &str) -> (r: Option<String>)
    ensures
        opt_seq(r) == spec_html_first_content(html@, selector@),
{
    let attrs = html_content_attrs(html, selector);
    let ghost view = attrs@.map_values(|o: Option<String>| opt_seq(o));
    proof {
        assert(view.subrange(0, view.len() as int) =~= view);
    }
    let mut i: usize = 0;
    while i < attrs.len()
        invariant
            view == attrs@.map_values(|o: Option<String>| opt_seq(o)),
            view == spec_html_content_attrs(html@, selector@),
            0 <= i <= attrs@.len(),
            spec_first_some(view) == spec_first_some(view.subrange(i as int, view.len() as int)),
        decreases attrs.len() - i,
    {
        proof {
            assert(view.subrange(i as int, view.len() as int).drop_first() =~= view.subrange(i + 1, view.len() as int));
            assert(view.subrange(i as int, view.len() as int)[0] == view[i as int]);
        }
        match &attrs[i] {
            Some(s) => {
                proof {
                    assert(view[i as int] == Some(s@));
                }
                return Some(s.clone());
            },
            None => {
                proof {
                    assert(view[i as int] is None);
                }
            },
        }
        i = i + 1;
    }
    proof {
        assert(view.subrange(i as int, view.len() as int).len() == 0);
    }
    None
}

/// `scraper`: parses `html` as a document and returns the concatenated text
/// of the first element `selector` matches; `None` when the selector does
/// not parse or nothing matches. The contract names the result only.
#[verifier::external_body]
fn html_first_text(html: &str, selector: &str) -> (r: Option<String>)
    ensures
        match r {
            Some(s) => spec_html_first_text(html@, selector@) == Some(s@),
            None => spec_html_first_text(html@, selector@) is None,
        },
{
    let document = scraper::Html::parse_document(html);
    let selector = scraper::Selector::parse(selector).ok()?;
    document.select(&selector).next().map(|element| element.text().collect::<String>())
}

/// A meta value: the first matching `content`, trimmed, unless blank.
pub open spec fn spec_meta_content(html: Seq<char>, selector: Seq<char>) -> Option<Seq<char>> {
    match spec_html_first_content(html, selector) {
        Some(c) => if spec_trim(c).len() > 0 {
            Some(spec_trim(c))
        } else {
            None
        },
        None => None,
    }
}

fn meta_content(html: &str, selector: &str) -> (r: Option<String>)
    ensures
        opt_seq(r) == spec_meta_content(html@, selector@),
{
    match html_first_content(html, selector) {
        Some(c) => {
            let t = trim(c.as_str());
            if t.as_str().unicode_len() > 0 {
                Some(t)
            } else {
                None
            }
        },
        None => None,
    }
}

/// An element's text: the first match's text, trimmed.
pub open spec fn spec_element_text(html: Seq<char>, selector: Seq<char>) -> Option<Seq<char>> {
    match spec_html_first_text(html, selector) {
        Some(t) => Some(spec_trim(t)),
        None => None,
    }
}

fn element_text(html: &str, selector: &str) -> (r: Option<String>)
    ensures
        opt_seq(r) == spec_element_text(html@, selector@),
{
    match html_first_text(html, selector) {
        Some(t) => Some(trim(t.as_str())),
        None => None,
    }
}

/// The first `max` characters of a text.
pub open spec fn spec_truncate_chars(value: Seq<char>, max: nat) -> Seq<char> {
    if value.len() <= max {
        value
    } else {
        value.subrange(0, max as int)
    }
}

/// The first `max` characters of a text.
pub fn truncate_chars(value: &str, max: usize) -> (r: String)
    ensures
        r@ == spec_truncate_chars(value@, max as nat),
{
    let v = chars_of(value);
    if v.len() <= max {
        return value.to_owned();
    }
    let t = slice_chars(&v, 0, max);
    string_from_chars(t.as_slice())
}

/// What a page declares for its preview.
#[derive(Debug)]
pub struct LinkMetadata {
    pub url: String,
    pub domain: String,
    pub title: String,
    pub description: Option<String>,
    pub image_url: Option<String>,
}

/// The first of two optional values that is present.
pub open spec fn spec_or<T>(a: Option<T>, b: Option<T>) -> Option<T> {
    match a {
        Some(x) => Some(x),
        None => b,
    }
}

/// The preview of a page at `url`: its Open Graph title, else Twitter's,
/// else its `<title>`, else the host (else `Link`), cut to 399 characters;
/// its description the same way, cut to 4085; its image resolved against the
/// page URL.
pub open spec fn spec_link_metadata(m: LinkMetadata, url: UrlView, html: Seq<char>) -> bool {
    let title = spec_or(
        spec_meta_content(html, "meta[property='og:title']"@),
        spec_or(
            spec_meta_content(html, "meta[name='twitter:title']"@),
            spec_element_text(html, "title"@),
        ),
    );
    let title = match title {
        Some(t) => if t.len() > 0 {
            t
        } else {
            match url.host {
                Some(h) => h,
                None => "Link"@,
            }
        },
        None => match url.host {
            Some(h) => h,
            None => "Link"@,
        },
    };
    let description = spec_or(
        spec_meta_content(html, "meta[property='og:description']"@),
        spec_or(
            spec_meta_content(html, "meta[name='twitter:description']"@),
            spec_meta_content(html, "meta[name='description']"@),
        ),
    );
    let image = spec_or(
        spec_meta_content(html, "meta[property='og:image']"@),
        spec_meta_content(html, "meta[name='twitter:image']"@),
    );
    &&& m.url@ == url.serialization
    &&& m.domain@ == match url.host {
        Some(h) => h,
        None => seq![],
    }
    &&& m.title@ == spec_truncate_chars(title, 399)
    &&& opt_seq(m.description) == match description {
        Some(d) => Some(spec_truncate_chars(d, 4085)),
        None => None,
    }
    &&& opt_seq(m.image_url) == match image {
        Some(i) => spec_url_join(url.serialization, i),
        None => None,
    }
}

/// The preview a page at `url` declares in its HTML.
pub fn parse_metadata(url: &ParsedUrl, html: &str) -> (m: LinkMetadata)
    ensures
        spec_link_metadata(m, url@, html@),
{
    let title = match meta_content(html, "meta[property='og:title']") {
        Some(t) => Some(t),
        None => match meta_content(html, "meta[name='twitter:title']") {
            Some(t) => Some(t),
            None => element_text(html, "title"),
        },
    };
    let host_or_link = match &url.host {
        Some(h) => h.clone(),
        None => "Link".to_owned(),
    };
    let title = match title {
        Some(t) => if t.as_str().unicode_len() > 0 {
            t
        } else {
            host_or_link
        },
        None => host_or_link,
    };
    let description = match meta_content(html, "meta[property='og:description']") {
        Some(d) => Some(d),
        None => match meta_content(html, "meta[name='twitter:description']") {
            Some(d) => Some(d),
            None => meta_content(html, "meta[name='description']"),
        },
    };
    let image = match meta_content(html, "meta[property='og:image']") {
        Some(i) => Some(i),
        None => meta_content(html, "meta[name='twitter:image']"),
    };
    let image_url = match image {
        Some(i) => url_join(url.serialization.as_str(), i.as_str()),
        None => None,
    };
    LinkMetadata {
        url: url.serialization.clone(),
        domain: match &url.host {
            Some(h) => h.clone(),
            None => String::new(),
        },
        title: truncate_chars(title.as_str(), 399),
        description: match description {
            Some(d) => Some(truncate_chars(d.as_str(), 4085)),
            None => None,
        },
        image_url,
    }
}

/// The largest page a preview is read from: 2 MiB.
pub const MAX_METADATA_BYTES: usize = 2097152;

/// A page that is not HTML gives no preview: a `Content-Type` header, when
/// there is one, must name `text/html` or `application/xhtml+xml`.
pub fn check_preview_content_type(url: &str, content_type: Option<&str>) -> (r: Result<(), AppError>)
    ensures
        match content_type {
            None => r is Ok,
            Some(ct) => if spec_contains(spec_ascii_lowercase(ct@), "text/html"@) || spec_contains(
                spec_ascii_lowercase(ct@),
                "application/xhtml+xml"@,
            ) {
                r is Ok
            } else {
                r matches Err(e) && is_validation(
                    e,
                    "Link-preview URL is not an HTML page: "@ + url@,
                    Some("Use a public article page with title metadata."@),
                    None,
                )
            },
        },
{
    match content_type {
        None => Ok(()),
        Some(ct) => {
            let lower = ascii_lowercase(ct);
            if contains(lower.as_str(), "text/html") || contains(
                lower.as_str(),
                "application/xhtml+xml",
            ) {
                Ok(())
            } else {
                let message = crate::text::concat2("Link-preview URL is not an HTML page: ", url);
                Err(validation(message, Some("Use a public article page with title metadata."), None))
            }
        },
    }
}

/// A preview is read from at most 2 MiB of HTML.
pub fn check_preview_size(len: usize) -> (r: Result<(), AppError>)
    ensures
        r is Ok <==> len <= MAX_METADATA_BYTES,
        r matches Err(e) ==> is_validation(
            e,
            "Link-preview HTML exceeds the 2097152 byte limit."@,
            Some("Use a smaller public article page."@),
            None,
        ),
{
    if len > MAX_METADATA_BYTES {
        return Err(
            validation(
                "Link-preview HTML exceeds the 2097152 byte limit.".to_owned(),
                Some("Use a smaller public article page."),
                None,
            ),
        );
    }
    Ok(())
}

} // verus!
