//! Substack Notes: the note body and request payload, the image data URL,
//! the ids in Substack's answers, and how each failed request is reported.
use vstd::prelude::*;

use crate::chars::{chars_of, str_eq};
use crate::errors::{is_validation, opt_seq, validation, AppError};
use crate::json::{
    json_items, json_members, push_item, push_member, spec_as_str, spec_get, spec_get_opt, Json,
    JsonValue,
};
use crate::lines::{lemma_line_end_bounds, spec_line_end};
use crate::link_preview::{spec_truncate_chars, truncate_chars};
use crate::note::spec_string_views;
use crate::platforms::{spec_str_array, string_array};
use crate::text::{concat2, concat3, decimal, slice_chars, spec_decimal, spec_trim, trim};
use crate::urls::{spec_url_parse, url_parse};

verus! {

/// The longest Note Substack accepts, in UTF-16 code units.
pub const MAX_NOTE_LENGTH_UTF16: usize = 5000;

/// The length of a text in UTF-16 code units.
pub open spec fn spec_utf16_len(s: Seq<char>) -> nat
    decreases s.len(),
{
    if s.len() == 0 {
        0
    } else {
        spec_utf16_len(s.drop_last()) + if (s.last() as u32) >= 0x10000 {
            2nat
        } else {
            1nat
        }
    }
}

proof fn lemma_utf16_len_bound(s: Seq<char>)
    ensures
        spec_utf16_len(s) <= 2 * s.len(),
    decreases s.len(),
{
    if s.len() > 0 {
        lemma_utf16_len_bound(s.drop_last());
    }
}

fn utf16_len(s: &Vec<char>) -> (n: usize)
    requires
        s@.len() <= usize::MAX / 2,
    ensures
        n == spec_utf16_len(s@),
{
    let mut n: usize = 0;
    let mut i: usize = 0;
    while i < s.len()
        invariant
            s@.len() <= usize::MAX / 2,
            0 <= i <= s@.len(),
            n == spec_utf16_len(s@.subrange(0, i as int)),
        decreases s.len() - i,
    {
        proof {
            assert(s@.subrange(0, i + 1).drop_last() =~= s@.subrange(0, i as int));
            lemma_utf16_len_bound(s@.subrange(0, i as int));
        }
        if (s[i] as u32) >= 0x10000 {
            n = n + 2;
        } else {
            n = n + 1;
        }
        i = i + 1;
    }
    proof {
        assert(s@.subrange(0, s@.len() as int) =~= s@);
    }
    n
}

/// The pieces of `s` from `i` on between `'\n'`s (`str::split('\n')`); a
/// final `'\n'` opens an empty last piece.
pub open spec fn spec_split_newline_from(s: Seq<char>, i: int) -> Seq<Seq<char>>
    decreases s.len() + 1 - i,
{
    if i < 0 || i > s.len() {
        seq![]
    } else {
        proof {
            lemma_line_end_bounds(s, i);
        }
        let e = spec_line_end(s, i);
        if e >= s.len() {
            seq![s.subrange(i, s.len() as int)]
        } else {
            seq![s.subrange(i, e)] + spec_split_newline_from(s, e + 1)
        }
    }
}

/// A line of a Note without one trailing `'\r'`.
pub open spec fn spec_strip_cr(line: Seq<char>) -> Seq<char> {
    if line.len() > 0 && line.last() == '\r' {
        line.drop_last()
    } else {
        line
    }
}

/// The paragraph node of one line: empty lines have no content.
pub open spec fn spec_paragraph(line: Seq<char>) -> Json {
    let l = spec_strip_cr(line);
    Json::Object(
        seq![
            ("type"@, Json::Str("paragraph"@)),
            (
                "content"@,
                Json::Array(
                    if l.len() == 0 {
                        seq![]
                    } else {
                        seq![Json::Object(seq![("type"@, Json::Str("text"@)), ("text"@, Json::Str(l))])]
                    },
                ),
            ),
        ],
    )
}

/// The rich-text document of a Note: one paragraph per line.
pub open spec fn spec_note_body(text: Seq<char>) -> Json {
    Json::Object(
        seq![
            ("type"@, Json::Str("doc"@)),
            ("attrs"@, Json::Object(seq![("schemaVersion"@, Json::Str("v1"@)), ("title"@, Json::Null)])),
            (
                "content"@,
                Json::Array(
                    spec_split_newline_from(text, 0).map_values(|l: Seq<char>| spec_paragraph(l)),
                ),
            ),
        ],
    )
}

/// The error of a Note that is empty or too long.
pub open spec fn is_note_length_error(e: AppError, text: Seq<char>) -> bool {
    is_validation(
        e,
        "Substack Note body must contain 1 to 5000 UTF-16 code units; found "@ + spec_decimal(
            spec_utf16_len(text),
        ) + "."@,
        Some("Shorten the Note and retry."@),
        None,
    )
}

fn paragraph(line: &Vec<char>) -> (v: JsonValue)
    ensures
        v@ == spec_paragraph(line@),
{
    let n = line.len();
    let l = if n > 0 && line[n - 1] == '\r' {
        slice_chars(line, 0, n - 1)
    } else {
        slice_chars(line, 0, n)
    };
    proof {
        assert(line@.subrange(0, n as int) =~= line@);
        assert(n > 0 ==> line@.subrange(0, n - 1) =~= line@.drop_last());
    }
    proof {
        assert(l@ == spec_strip_cr(line@));
    }
    let text = crate::chars::string_from_chars(l.as_slice());
    let mut content: Vec<JsonValue> = Vec::new();
    proof {
        assert(json_items(content) =~= Seq::<Json>::empty());
    }
    if l.len() > 0 {
        let mut node: Vec<(String, JsonValue)> = Vec::new();
        proof {
            assert(json_members(node) =~= Seq::<(Seq<char>, Json)>::empty());
        }
        push_member(&mut node, "type", JsonValue::string("text"));
        push_member(&mut node, "text", JsonValue::string(text.as_str()));
        proof {
            assert(json_members(node) =~= seq![("type"@, Json::Str("text"@)), ("text"@, Json::Str(l@))]);
        }
        push_item(&mut content, JsonValue::Object(node));
    }
    proof {
        let expected: Seq<Json> = if l@.len() == 0 {
            seq![]
        } else {
            seq![Json::Object(seq![("type"@, Json::Str("text"@)), ("text"@, Json::Str(l@))])]
        };
        assert(json_items(content) =~= expected);
    }
    let mut m: Vec<(String, JsonValue)> = Vec::new();
    proof {
        assert(json_members(m) =~= Seq::<(Seq<char>, Json)>::empty());
    }
    push_member(&mut m, "type", JsonValue::string("paragraph"));
    push_member(&mut m, "content", JsonValue::Array(content));
    proof {
        assert(json_members(m) =~= spec_paragraph(line@)->Object_0);
    }
    JsonValue::Object(m)
}

/// The rich-text document of a Note: 1 to 5000 UTF-16 code units, one
/// paragraph per line.
pub fn build_note_body(text: &str) -> (r: Result<JsonValue, AppError>)
    requires
        text@.len() <= usize::MAX / 2,
    ensures
        text@.len() == 0 || spec_utf16_len(text@) > 5000 ==> (r matches Err(e) && is_note_length_error(
            e,
            text@,
        )),
        !(text@.len() == 0 || spec_utf16_len(text@) > 5000) ==> (r matches Ok(v) && v@
            == spec_note_body(text@)),
{
    let s = chars_of(text);
    let len = utf16_len(&s);
    if s.len() == 0 || len > MAX_NOTE_LENGTH_UTF16 {
        let count = decimal(len as u64);
        let message = concat3(
            "Substack Note body must contain 1 to 5000 UTF-16 code units; found ",
            count.as_str(),
            ".",
        );
        return Err(validation(message, Some("Shorten the Note and retry."), None));
    }
    let ghost pieces = spec_split_newline_from(s@, 0);
    let ghost target = pieces.map_values(|l: Seq<char>| spec_paragraph(l));
    let n = s.len();
    let mut content: Vec<JsonValue> = Vec::new();
    proof {
        assert(json_items(content) =~= Seq::<Json>::empty());
    }
    let mut start: usize = 0;
    let mut done = false;
    while !done
        invariant
            n == s@.len(),
            s@ == text@,
            0 <= start <= n,
            pieces == spec_split_newline_from(s@, 0),
            target == pieces.map_values(|l: Seq<char>| spec_paragraph(l)),
            !done ==> pieces == spec_split_newline_from(s@, 0).subrange(
                0,
                json_items(content).len() as int,
            ) + spec_split_newline_from(s@, start as int),
            !done ==> json_items(content) == target.subrange(0, json_items(content).len() as int),
            done ==> json_items(content) == target,
            json_items(content).len() <= pieces.len(),
        decreases n - start + (if done { 0int } else { 1int }),
    {
        let mut e = start;
        while e < n && s[e] != '\n'
            invariant
                n == s@.len(),
                start <= e <= n,
                spec_line_end(s@, e as int) == spec_line_end(s@, start as int),
            decreases n - e,
        {
            e = e + 1;
        }
        proof {
            lemma_line_end_bounds(s@, start as int);
        }
        let line = slice_chars(&s, start, e);
        let p = paragraph(&line);
        let ghost k: int = json_items(content).len() as int;
        let ghost rest = spec_split_newline_from(s@, start as int);
        push_item(&mut content, p);
        proof {
            assert(rest[0] == s@.subrange(start as int, e as int));
            assert(pieces[k] == rest[0]);
            assert(target[k] == spec_paragraph(rest[0]));
            assert(json_items(content) =~= target.subrange(0, k + 1));
        }
        if e >= n {
            proof {
                assert(rest =~= seq![s@.subrange(start as int, n as int)]);
                assert(pieces.len() == k + 1);
                assert(target.subrange(0, k + 1) =~= target);
            }
            done = true;
        } else {
            proof {
                assert(rest == seq![s@.subrange(start as int, e as int)] + spec_split_newline_from(
                    s@,
                    e + 1,
                ));
                assert(pieces =~= spec_split_newline_from(s@, 0).subrange(0, k + 1)
                    + spec_split_newline_from(s@, e + 1)) by {
                    assert(spec_split_newline_from(s@, 0).subrange(0, k + 1) =~= spec_split_newline_from(
                        s@,
                        0,
                    ).subrange(0, k).push(rest[0]));
                }
            }
            start = e + 1;
        }
    }
    let mut attrs: Vec<(String, JsonValue)> = Vec::new();
    proof {
        assert(json_members(attrs) =~= Seq::<(Seq<char>, Json)>::empty());
    }
    push_member(&mut attrs, "schemaVersion", JsonValue::string("v1"));
    push_member(&mut attrs, "title", JsonValue::Null);
    proof {
        assert(json_members(attrs) =~= seq![("schemaVersion"@, Json::Str("v1"@)), ("title"@, Json::Null)]);
        assert(json_items(content) == target);
    }
    let mut m: Vec<(String, JsonValue)> = Vec::new();
    proof {
        assert(json_members(m) =~= Seq::<(Seq<char>, Json)>::empty());
    }
    push_member(&mut m, "type", JsonValue::string("doc"));
    push_member(&mut m, "attrs", JsonValue::Object(attrs));
    push_member(&mut m, "content", JsonValue::Array(content));
    proof {
        assert(json_members(m) =~= spec_note_body(text@)->Object_0);
    }
    Ok(JsonValue::Object(m))
}

/// The body of a Note publish: the document, posted to the "for you" feed,
/// open to replies from everyone, with its image attachments when it has any.
pub open spec fn spec_note_payload(body: Json, attachment_ids: Seq<Seq<char>>) -> Json {
    let base = seq![
        ("bodyJson"@, body),
        ("tabId"@, Json::Str("for-you"@)),
        ("surface"@, Json::Str("feed"@)),
        ("replyMinimumRole"@, Json::Str("everyone"@)),
    ];
    if attachment_ids.len() == 0 {
        Json::Object(base)
    } else {
        Json::Object(base.push(("attachmentIds"@, spec_str_array(attachment_ids))))
    }
}

/// The body of a Note publish.
pub fn note_payload(body_json: JsonValue, attachment_ids: &Vec<String>) -> (v: JsonValue)
    ensures
        v@ == spec_note_payload(body_json@, spec_string_views(attachment_ids@)),
{
    let ghost body = body_json@;
    let mut m: Vec<(String, JsonValue)> = Vec::new();
    proof {
        assert(json_members(m) =~= Seq::<(Seq<char>, Json)>::empty());
    }
    push_member(&mut m, "bodyJson", body_json);
    push_member(&mut m, "tabId", JsonValue::string("for-you"));
    push_member(&mut m, "surface", JsonValue::string("feed"));
    push_member(&mut m, "replyMinimumRole", JsonValue::string("everyone"));
    if attachment_ids.len() > 0 {
        push_member(&mut m, "attachmentIds", string_array(attachment_ids));
    }
    proof {
        assert(json_members(m) =~= spec_note_payload(body, spec_string_views(attachment_ids@))->Object_0);
    }
    JsonValue::Object(m)
}

/// The body a debug run shows for a Note with `media_count` images, whose
/// attachment ids are not known yet.
pub fn note_payload_preview(body_json: JsonValue, media_count: usize) -> (v: JsonValue)
    ensures
        v@ == spec_note_payload(body_json@, spec_attachment_placeholders(media_count as nat)),
{
    let placeholders = substack_placeholders(media_count);
    note_payload(body_json, &placeholders)
}

/// The placeholder attachment ids of a debug run:
/// `<resolved-via-substack-image-attachment-N>` for N from 1.
pub open spec fn spec_attachment_placeholders(count: nat) -> Seq<Seq<char>> {
    Seq::new(
        count,
        |i: int| "<resolved-via-substack-image-attachment-"@ + spec_decimal((i + 1) as nat) + ">"@,
    )
}

fn substack_placeholders(count: usize) -> (v: Vec<String>)
    ensures
        spec_string_views(v@) == spec_attachment_placeholders(count as nat),
{
    let ghost target = spec_attachment_placeholders(count as nat);
    let mut v: Vec<String> = Vec::new();
    let mut i: usize = 0;
    while i < count
        invariant
            0 <= i <= count,
            target == spec_attachment_placeholders(count as nat),
            spec_string_views(v@) == target.subrange(0, i as int),
        decreases count - i,
    {
        let n = decimal((i as u64) + 1);
        let s = concat3("<resolved-via-substack-image-attachment-", n.as_str(), ">");
        let ghost before = v@;
        v.push(s);
        proof {
            crate::note::lemma_string_views_push(before, s);
            assert(target.subrange(0, i + 1) =~= target.subrange(0, i as int).push(s@));
        }
        i = i + 1;
    }
    proof {
        assert(target.subrange(0, count as int) =~= target);
    }
    v
}

/// The MIME type of a Note image, by extension in any case: PNG or JPEG.
pub open spec fn spec_image_mime(path: Seq<char>) -> Option<Seq<char>> {
    let e = crate::publish::spec_lower_extension(path);
    if e == "png"@ {
        Some("image/png"@)
    } else if e == "jpg"@ || e == "jpeg"@ {
        Some("image/jpeg"@)
    } else {
        None
    }
}

/// Substack takes exactly the images a post may carry: a Note image has a
/// MIME type exactly when its path has an allowed media extension (PNG for
/// `.png`, JPEG for `.jpg` and `.jpeg`, in any case).
pub proof fn lemma_image_mime_matches_media_rule(path: Seq<char>)
    ensures
        spec_image_mime(path) is Some <==> crate::publish::spec_has_allowed_media_extension(path),
        crate::publish::spec_lower_extension(path) == "png"@ ==> spec_image_mime(path) == Some("image/png"@),
        crate::publish::spec_lower_extension(path) == "jpg"@ || crate::publish::spec_lower_extension(path)
            == "jpeg"@ ==> spec_image_mime(path) == Some("image/jpeg"@),
{
    reveal_strlit("png");
    reveal_strlit("jpg");
    reveal_strlit("jpeg");
    let e = crate::publish::spec_lower_extension(path);
    if e == "jpg"@ || e == "jpeg"@ {
        assert(e[0] == 'j');
        assert("png"@[0] == 'p');
        assert(e != "png"@);
    }
}

/// The error of an image Substack does not take.
pub open spec fn is_image_format_error(e: AppError, path: Seq<char>) -> bool {
    is_validation(
        e,
        "Unsupported Substack image format: "@ + path,
        Some("Use PNG, JPG, or JPEG images."@),
        None,
    )
}

/// The MIME type of a Note image.
pub fn image_mime(path: &str) -> (r: Result<&'static str, AppError>)
    ensures
        match spec_image_mime(path@) {
            Some(m) => r matches Ok(t) && t@ == m,
            None => r matches Err(e) && is_image_format_error(e, path@),
        },
{
    let e = crate::publish::lower_extension(path);
    if str_eq(e.as_str(), "png") {
        Ok("image/png")
    } else if str_eq(e.as_str(), "jpg") || str_eq(e.as_str(), "jpeg") {
        Ok("image/jpeg")
    } else {
        let message = concat2("Unsupported Substack image format: ", path);
        Err(validation(message, Some("Use PNG, JPG, or JPEG images."), None))
    }
}

/// The standard Base64 text of `bytes`, with padding.
pub uninterp spec fn spec_base64_standard(bytes: Seq<u8>) -> Seq<char>;

/// `base64::engine::general_purpose::STANDARD.encode(bytes)`. The contract
/// names the text only.
#[verifier::external_body]
pub(crate) fn base64_standard(bytes: &[u8]) -> (s: String)
    ensures
        s@ == spec_base64_standard(bytes@),
{
    <base64::engine::GeneralPurpose as base64::Engine>::encode(
        &base64::engine::general_purpose::STANDARD,
        bytes,
    )
}

/// The data URL a Note image is uploaded as.
pub open spec fn spec_image_data_url(path: Seq<char>, bytes: Seq<u8>) -> Option<Seq<char>> {
    match spec_image_mime(path) {
        Some(m) => Some("data:"@ + m + ";base64,"@ + spec_base64_standard(bytes)),
        None => None,
    }
}

/// The data URL a Note image at `path` with content `bytes` is uploaded as.
pub fn image_data_url(path: &str, bytes: &Vec<u8>) -> (r: Result<String, AppError>)
    ensures
        match spec_image_data_url(path@, bytes@) {
            Some(u) => r matches Ok(s) && s@ == u,
            None => r matches Err(e) && is_image_format_error(e, path@),
        },
{
    let mime = match image_mime(path) {
        Ok(m) => m,
        Err(e) => return Err(e),
    };
    let encoded = base64_standard(bytes.as_slice());
    let head = concat3("data:", mime, ";base64,");
    Ok(concat2(head.as_str(), encoded.as_str()))
}

/// The decimal text of a signed integer.
pub open spec fn spec_int_text(n: i64) -> Seq<char> {
    if n < 0 {
        "-"@ + spec_decimal((-(n as int)) as nat)
    } else {
        spec_decimal(n as nat)
    }
}

/// A JSON number or non-empty string as text (`serde_json::Number::to_string`
/// for numbers); nothing for other values.
pub open spec fn spec_value_as_string(v: Option<Json>) -> Option<Seq<char>> {
    match v {
        Some(Json::Str(s)) => if s.len() > 0 {
            Some(s)
        } else {
            None
        },
        Some(Json::UInt(n)) => Some(spec_decimal(n as nat)),
        Some(Json::Int(n)) => Some(spec_int_text(n)),
        Some(Json::Float(t)) => Some(t),
        _ => None,
    }
}

/// A JSON number or non-empty string as text.
pub fn value_as_string(value: Option<&JsonValue>) -> (r: Option<String>)
    ensures
        opt_seq(r) == spec_value_as_string(
            match value {
                Some(v) => Some(v@),
                None => None,
            },
        ),
{
    match value {
        Some(JsonValue::Str(s)) => if s.as_str().unicode_len() > 0 {
            Some(s.clone())
        } else {
            None
        },
        Some(JsonValue::UInt(n)) => Some(decimal(*n)),
        Some(JsonValue::Int(n)) => {
            if *n < 0 {
                let m: u64 = (-(*n as i128)) as u64;
                let d = decimal(m);
                Some(concat2("-", d.as_str()))
            } else {
                Some(decimal(*n as u64))
            }
        },
        Some(JsonValue::Float(t)) => Some(t.clone()),
        _ => None,
    }
}

/// The id in a Substack answer: `id`, else `comment.id`, else `item.comment.id`.
pub open spec fn spec_extract_id(v: Json) -> Option<Seq<char>> {
    match spec_value_as_string(spec_get(v, "id"@)) {
        Some(i) => Some(i),
        None => match spec_value_as_string(spec_get_opt(spec_get(v, "comment"@), "id"@)) {
            Some(i) => Some(i),
            None => spec_value_as_string(
                spec_get_opt(spec_get_opt(spec_get(v, "item"@), "comment"@), "id"@),
            ),
        },
    }
}

fn member<'a>(v: Option<&'a JsonValue>, key: &str) -> (r: Option<&'a JsonValue>)
    ensures
        match r {
            Some(x) => spec_get_opt(
                match v {
                    Some(y) => Some(y@),
                    None => None,
                },
                key@,
            ) == Some(x@),
            None => spec_get_opt(
                match v {
                    Some(y) => Some(y@),
                    None => None,
                },
                key@,
            ) is None,
        },
{
    match v {
        Some(y) => y.get(key),
        None => None,
    }
}

/// The id in a Substack answer.
pub fn extract_id(value: &JsonValue) -> (r: Option<String>)
    ensures
        opt_seq(r) == spec_extract_id(value@),
{
    match value_as_string(value.get("id")) {
        Some(i) => Some(i),
        None => match value_as_string(member(value.get("comment"), "id")) {
            Some(i) => Some(i),
            None => value_as_string(member(member(value.get("item"), "comment"), "id")),
        },
    }
}

/// The first `max` characters of a text.
pub fn truncate(value: &str, max_chars: usize) -> (r: String)
    ensures
        r@ == spec_truncate_chars(value@, max_chars as nat),
{
    truncate_chars(value, max_chars)
}

/// A successful HTTP status: 2xx.
pub open spec fn spec_success(status: u16) -> bool {
    200 <= status <= 299
}

/// The hint a refused Substack request carries: an invalid session on 401, a
/// refused publish on 403 of the publish itself.
pub open spec fn spec_status_hint(status: u16, final_publish: bool) -> Json {
    if status == 401 {
        Json::Str("substack_session_invalid"@)
    } else if status == 403 && final_publish {
        Json::Str("substack_publish_forbidden"@)
    } else {
        Json::Null
    }
}

/// A preview of a body that is not JSON: its first 500 characters.
pub open spec fn spec_preview_object(raw: Seq<char>) -> Json {
    Json::Object(seq![("response_preview"@, Json::Str(spec_truncate_chars(raw, 500)))])
}

/// What a Substack answer is: for a failed status, an error with the hint and
/// the provider's error (or a preview of the body); else the parsed body
/// (`null` for a blank one), or an error when it is not JSON. `parsed` is
/// what the body parses to as JSON, if it does. A failed publish, or a
/// publish whose answer is not understood, is never retried.
pub open spec fn spec_substack_outcome(
    r: Result<JsonValue, AppError>,
    status: u16,
    raw: Seq<char>,
    parsed: Option<Json>,
    final_publish: bool,
) -> bool {
    if !spec_success(status) {
        r matches Err(e) && is_status_error(e, status, raw, parsed, final_publish)
    } else if spec_trim(raw).len() == 0 {
        r matches Ok(v) && v@ == Json::Null
    } else {
        match parsed {
            Some(p) => r matches Ok(v) && v@ == p,
            None => r matches Err(e) && is_non_json_error(e, status, raw, final_publish),
        }
    }
}

/// The error of a Substack answer with a failed status.
pub open spec fn is_status_error(
    e: AppError,
    status: u16,
    raw: Seq<char>,
    parsed: Option<Json>,
    final_publish: bool,
) -> bool {
    &&& e is Http
    &&& e->Http_message@ == "Substack API returned "@ + spec_decimal(status as nat)
    &&& e->Http_status == Some(status)
    &&& crate::json::opt_json(e->Http_api_error) == Some(
        Json::Object(
            seq![
                ("local_hint"@, spec_status_hint(status, final_publish)),
                (
                    "provider_error"@,
                    match parsed {
                        Some(p) => p,
                        None => spec_preview_object(raw),
                    },
                ),
            ],
        ),
    )
    &&& e->Http_retryable == (!final_publish && ((500 <= status <= 599) || status == 429))
}

/// The error of a successful Substack answer whose body is not JSON.
pub open spec fn is_non_json_error(e: AppError, status: u16, raw: Seq<char>, final_publish: bool) -> bool {
    &&& e is Http
    &&& e->Http_message@ == (if final_publish {
        "Substack accepted the publish request but returned a non-JSON response; publishing outcome is unknown."@
    } else {
        "Substack returned a non-JSON response."@
    })
    &&& e->Http_status == Some(status)
    &&& crate::json::opt_json(e->Http_api_error) == Some(
        Json::Object(
            seq![
                (
                    "local_hint"@,
                    if final_publish {
                        Json::Str("substack_publish_outcome_unknown"@)
                    } else {
                        Json::Null
                    },
                ),
                ("response_preview"@, Json::Str(spec_truncate_chars(raw, 500))),
            ],
        ),
    )
    &&& !e->Http_retryable
}

/// What a Substack answer with `status` and body `raw` is; `parsed` is the
/// body as JSON, if it parses.
pub fn substack_response_outcome(
    status: u16,
    raw: &str,
    parsed: Option<JsonValue>,
    final_publish: bool,
) -> (r: Result<JsonValue, AppError>)
    ensures
        spec_substack_outcome(r, status, raw@, crate::json::opt_json(parsed), final_publish),
{
    let ghost pv = crate::json::opt_json(parsed);
    if !(200 <= status && status <= 299) {
        let hint = if status == 401 {
            JsonValue::string("substack_session_invalid")
        } else if status == 403 && final_publish {
            JsonValue::string("substack_publish_forbidden")
        } else {
            JsonValue::Null
        };
        let ghost hint_view = hint@;
        proof {
            assert(hint_view == spec_status_hint(status, final_publish));
        }
        let provider_error = match &parsed {
            Some(p) => p.copy(),
            None => preview_object(raw),
        };
        let ghost pe_view = provider_error@;
        proof {
            assert(pe_view == match pv {
                Some(p) => p,
                None => spec_preview_object(raw@),
            });
        }
        let mut m: Vec<(String, JsonValue)> = Vec::new();
        proof {
            assert(json_members(m) =~= Seq::<(Seq<char>, Json)>::empty());
        }
        push_member(&mut m, "local_hint", hint);
        push_member(&mut m, "provider_error", provider_error);
        let ghost expected: Seq<(Seq<char>, Json)> = seq![
            ("local_hint"@, spec_status_hint(status, final_publish)),
            (
                "provider_error"@,
                match pv {
                    Some(p) => p,
                    None => spec_preview_object(raw@),
                },
            ),
        ];
        proof {
            assert(json_members(m) =~= expected);
        }
        let code = decimal(status as u64);
        let message = concat2("Substack API returned ", code.as_str());
        let api_error = Some(JsonValue::Object(m));
        proof {
            assert(crate::json::opt_json(api_error) == Some(Json::Object(expected)));
        }
        let e = AppError::Http {
            message,
            status: Some(status),
            api_error,
            retryable: !final_publish && ((500 <= status && status <= 599) || status == 429),
        };
        proof {
            assert(crate::json::opt_json(e->Http_api_error) == Some(Json::Object(expected)));
        }
        return Err(e);
    }
    let t = trim(raw);
    if t.as_str().unicode_len() == 0 {
        return Ok(JsonValue::Null);
    }
    proof {
        assert(spec_trim(raw@).len() > 0);
    }
    match &parsed {
        Some(p) => Ok(p.copy()),
        None => {
            let mut m: Vec<(String, JsonValue)> = Vec::new();
            proof {
                assert(json_members(m) =~= Seq::<(Seq<char>, Json)>::empty());
            }
            let hint = if final_publish {
                JsonValue::string("substack_publish_outcome_unknown")
            } else {
                JsonValue::Null
            };
            push_member(&mut m, "local_hint", hint);
            let preview = truncate_chars(raw, 500);
            push_member(&mut m, "response_preview", JsonValue::string(preview.as_str()));
            let ghost expected: Seq<(Seq<char>, Json)> = seq![
                (
                    "local_hint"@,
                    if final_publish {
                        Json::Str("substack_publish_outcome_unknown"@)
                    } else {
                        Json::Null
                    },
                ),
                ("response_preview"@, Json::Str(spec_truncate_chars(raw@, 500))),
            ];
            proof {
                assert(json_members(m) =~= expected);
            }
            let message = if final_publish {
                "Substack accepted the publish request but returned a non-JSON response; publishing outcome is unknown.".to_owned()
            } else {
                "Substack returned a non-JSON response.".to_owned()
            };
            let e = AppError::Http {
                message,
                status: Some(status),
                api_error: Some(JsonValue::Object(m)),
                retryable: false,
            };
            proof {
                assert(crate::json::opt_json(e->Http_api_error) == Some(Json::Object(expected)));
                assert(is_non_json_error(e, status, raw@, final_publish));
            }
            Err(e)
        },
    }
}

fn preview_object(raw: &str) -> (v: JsonValue)
    ensures
        v@ == spec_preview_object(raw@),
{
    let preview = truncate_chars(raw, 500);
    let mut m: Vec<(String, JsonValue)> = Vec::new();
    proof {
        assert(json_members(m) =~= Seq::<(Seq<char>, Json)>::empty());
    }
    push_member(&mut m, "response_preview", JsonValue::string(preview.as_str()));
    proof {
        assert(json_members(m) =~= seq![("response_preview"@, Json::Str(spec_truncate_chars(raw@, 500)))]);
    }
    JsonValue::Object(m)
}

/// A Substack answer whose body could not be read: for the publish itself
/// the outcome is unknown; neither is retried. `cause` is the transport's
/// error text.
pub fn substack_read_error(final_publish: bool, status: u16, cause: &str) -> (e: AppError)
    ensures
        e matches AppError::Http { message, status: s, api_error, retryable } && message@ == (
        if final_publish {
            "Substack Note publish response could not be read; publishing outcome is unknown: "@
        } else {
            "Failed to read Substack response: "@
        }) + cause@ && s == Some(status) && crate::json::opt_json(api_error) == (if final_publish {
            Some(Json::Object(seq![("local_hint"@, Json::Str("substack_publish_outcome_unknown"@))]))
        } else {
            None
        }) && !retryable,
{
    if final_publish {
        let mut m: Vec<(String, JsonValue)> = Vec::new();
        proof {
            assert(json_members(m) =~= Seq::<(Seq<char>, Json)>::empty());
        }
        push_member(&mut m, "local_hint", JsonValue::string("substack_publish_outcome_unknown"));
        proof {
            assert(json_members(m) =~= seq![("local_hint"@, Json::Str("substack_publish_outcome_unknown"@))]);
        }
        let message = concat2(
            "Substack Note publish response could not be read; publishing outcome is unknown: ",
            cause,
        );
        AppError::Http { message, status: Some(status), api_error: Some(JsonValue::Object(m)), retryable: false }
    } else {
        let message = concat2("Failed to read Substack response: ", cause);
        AppError::Http { message, status: Some(status), api_error: None, retryable: false }
    }
}

/// A Substack request that got no answer: for the publish itself the
/// outcome is unknown and never retried; other requests are retried on a
/// timeout or a failed connection. `cause` is the transport's error text.
pub fn substack_send_error(final_publish: bool, cause: &str, timeout_or_connect: bool) -> (e: AppError)
    ensures
        e matches AppError::Http { message, status, api_error, retryable } && message@ == (if final_publish {
            "Substack Note publish response was not received; publishing outcome is unknown: "@
        } else {
            "Substack request failed: "@
        }) + cause@ && status is None && crate::json::opt_json(api_error) == Some(
            Json::Object(
                seq![
                    (
                        "local_hint"@,
                        Json::Str(
                            if final_publish {
                                "substack_publish_outcome_unknown"@
                            } else {
                                "substack_transport_error"@
                            },
                        ),
                    ),
                ],
            ),
        ) && retryable == (!final_publish && timeout_or_connect),
{
    let hint = if final_publish {
        "substack_publish_outcome_unknown"
    } else {
        "substack_transport_error"
    };
    let mut m: Vec<(String, JsonValue)> = Vec::new();
    proof {
        assert(json_members(m) =~= Seq::<(Seq<char>, Json)>::empty());
    }
    push_member(&mut m, "local_hint", JsonValue::string(hint));
    let message = if final_publish {
        concat2(
            "Substack Note publish response was not received; publishing outcome is unknown: ",
            cause,
        )
    } else {
        concat2("Substack request failed: ", cause)
    };
    AppError::Http {
        message,
        status: None,
        api_error: Some(JsonValue::Object(m)),
        retryable: !final_publish && timeout_or_connect,
    }
}

/// The handle of the signed-in account: the first of `potentialHandles`
/// of type `existing` with a string handle, unless that handle is blank.
pub open spec fn spec_existing_handle(items: Seq<Json>) -> Option<Seq<char>>
    decreases items.len(),
{
    if items.len() == 0 {
        None
    } else if spec_as_str(spec_get(items[0], "type"@)) == Some("existing"@) && spec_as_str(
        spec_get(items[0], "handle"@),
    ) is Some {
        spec_as_str(spec_get(items[0], "handle"@))
    } else {
        spec_existing_handle(items.drop_first())
    }
}

/// The handle of the signed-in account in the answer to `handle/options`.
pub open spec fn spec_profile_handle(options: Json) -> Option<Seq<char>> {
    match spec_get(options, "potentialHandles"@) {
        Some(Json::Array(items)) => match spec_existing_handle(items) {
            Some(h) => if spec_trim(h).len() > 0 {
                Some(h)
            } else {
                None
            },
            None => None,
        },
        _ => None,
    }
}

fn existing_handle(items: &Vec<JsonValue>) -> (r: Option<String>)
    ensures
        opt_seq(r) == spec_existing_handle(json_items(*items)),
{
    let ghost views = json_items(*items);
    proof {
        assert(views.subrange(0, views.len() as int) =~= views);
    }
    let mut i: usize = 0;
    while i < items.len()
        invariant
            0 <= i <= items@.len(),
            views == json_items(*items),
            views.len() == items@.len(),
            spec_existing_handle(views) == spec_existing_handle(views.subrange(i as int, views.len() as int)),
        decreases items.len() - i,
    {
        let item = &items[i];
        proof {
            assert(views[i as int] == item@);
            assert(views.subrange(i as int, views.len() as int)[0] == item@);
            assert(views.subrange(i as int, views.len() as int).drop_first() =~= views.subrange(
                i + 1,
                views.len() as int,
            ));
        }
        let is_existing = match item.get("type") {
            Some(t) => match t.as_str() {
                Some(s) => str_eq(s, "existing"),
                None => false,
            },
            None => false,
        };
        if is_existing {
            match item.get("handle") {
                Some(h) => match h.as_str() {
                    Some(s) => {
                        return Some(s.to_owned());
                    },
                    None => {},
                },
                None => {},
            }
        }
        i = i + 1;
    }
    None
}

/// The handle of the signed-in account, or the error of a missing profile.
pub fn find_existing_handle(options: &JsonValue) -> (r: Result<String, AppError>)
    ensures
        match spec_profile_handle(options@) {
            Some(h) => r matches Ok(s) && s@ == h,
            None => r matches Err(e) && e matches AppError::Http {
                message,
                status,
                api_error,
                retryable,
            } && message@ == "Authenticated Substack profile was not found."@ && status == Some(
                502u16,
            ) && crate::json::opt_json(api_error) == Some(options@) && !retryable,
        },
{
    let found = match options.get("potentialHandles") {
        Some(JsonValue::Array(items)) => existing_handle(items),
        _ => None,
    };
    match found {
        Some(h) => {
            let t = trim(h.as_str());
            if t.as_str().unicode_len() > 0 {
                return Ok(h);
            }
        },
        None => {},
    }
    Err(
        AppError::Http {
            message: "Authenticated Substack profile was not found.".to_owned(),
            status: Some(502),
            api_error: Some(options.copy()),
            retryable: false,
        },
    )
}

/// A byte that percent-encoding leaves as it is: ASCII letters and digits,
/// `-`, `.`, `_` and `~`.
pub open spec fn spec_unreserved(b: u8) -> bool {
    (48 <= b <= 57) || (65 <= b <= 90) || (97 <= b <= 122) || b == 45 || b == 46 || b == 95 || b
        == 126
}

/// An upper-case hexadecimal digit.
pub open spec fn spec_hex_digit(d: u8) -> char {
    if d < 10 {
        ((48 + d) as u32) as char
    } else {
        ((55 + d) as u32) as char
    }
}

/// Percent-encoding of bytes: unreserved bytes stay, every other byte is
/// `%` and its two upper-case hex digits.
pub open spec fn spec_percent_encode(bytes: Seq<u8>) -> Seq<char>
    decreases bytes.len(),
{
    if bytes.len() == 0 {
        seq![]
    } else {
        let b = bytes.last();
        spec_percent_encode(bytes.drop_last()) + if spec_unreserved(b) {
            seq![(b as u32) as char]
        } else {
            seq!['%', spec_hex_digit(b / 16), spec_hex_digit(b % 16)]
        }
    }
}

/// `urlencoding::encode`: the UTF-8 bytes of `s`, percent-encoded except
/// ASCII letters, digits and `-`, `.`, `_`, `~` (as the crate's source does it).
#[verifier::external_body]
pub(crate) fn url_encode(s: &str) -> (r: String)
    ensures
        r@ == spec_percent_encode(vstd::utf8::encode_utf8(s@)),
{
    urlencoding::encode(s).into_owned()
}

/// The API path of a Substack public profile.
pub fn profile_path(handle: &str) -> (p: String)
    ensures
        p@ == "user/"@ + spec_percent_encode(vstd::utf8::encode_utf8(handle@)) + "/public_profile"@,
{
    let encoded = url_encode(handle);
    concat3("user/", encoded.as_str(), "/public_profile")
}

/// An uploaded image's answer must carry a URL that parses.
pub open spec fn spec_upload_check(r: Result<(), AppError>, body: Json) -> bool {
    match spec_as_str(spec_get(body, "url"@)) {
        Some(u) if spec_trim(u).len() > 0 => match spec_url_parse(u) {
            Ok(_) => r is Ok,
            Err(msg) => r matches Err(e) && is_bad_gateway(
                e,
                "Substack image upload returned an invalid URL: "@ + msg,
                body,
            ),
        },
        _ => r matches Err(e) && is_bad_gateway(
            e,
            "Substack image upload response did not include a URL."@,
            body,
        ),
    }
}

/// An error Substack's answer is blamed for: 502 with the answer attached,
/// not retried.
pub open spec fn is_bad_gateway(e: AppError, message: Seq<char>, body: Json) -> bool {
    &&& e is Http
    &&& e->Http_message@ == message
    &&& e->Http_status == Some(502u16)
    &&& crate::json::opt_json(e->Http_api_error) == Some(body)
    &&& !e->Http_retryable
}

fn bad_gateway(message: String, body: &JsonValue) -> (e: AppError)
    ensures
        is_bad_gateway(e, message@, body@),
{
    let api_error = Some(body.copy());
    proof {
        assert(crate::json::opt_json(api_error) == Some(body@));
    }
    let e = AppError::Http { message, status: Some(502), api_error, retryable: false };
    proof {
        assert(crate::json::opt_json(e->Http_api_error) == Some(body@));
    }
    e
}

/// Checks Substack's answer to an image upload.
pub fn check_uploaded_image(body: &JsonValue) -> (r: Result<(), AppError>)
    ensures
        spec_upload_check(r, body@),
{
    let url = match body.get("url") {
        Some(v) => match v.as_str() {
            Some(u) => {
                let t = trim(u);
                if t.as_str().unicode_len() > 0 {
                    Some(u)
                } else {
                    None
                }
            },
            None => None,
        },
        None => None,
    };
    match url {
        None => Err(bad_gateway("Substack image upload response did not include a URL.".to_owned(), body)),
        Some(u) => match url_parse(u) {
            Ok(_) => Ok(()),
            Err(msg) => {
                let message = concat2("Substack image upload returned an invalid URL: ", msg.as_str());
                Err(bad_gateway(message, body))
            },
        },
    }
}

/// The body that makes an uploaded image an attachment: its URL, as an image.
pub open spec fn spec_attachment_request(uploaded: Json) -> Option<Json> {
    match spec_as_str(spec_get(uploaded, "url"@)) {
        Some(u) => Some(Json::Object(seq![("url"@, Json::Str(u)), ("type"@, Json::Str("image"@))])),
        None => None,
    }
}

/// The body that makes an uploaded image an attachment.
pub fn attachment_request(uploaded_image: &JsonValue) -> (r: Result<JsonValue, AppError>)
    ensures
        match spec_attachment_request(uploaded_image@) {
            Some(j) => r matches Ok(v) && v@ == j,
            None => r matches Err(e) && is_validation(e, "Uploaded Substack image has no URL."@, None, None),
        },
{
    let url = match uploaded_image.get("url") {
        Some(v) => v.as_str(),
        None => None,
    };
    match url {
        Some(u) => {
            let mut m: Vec<(String, JsonValue)> = Vec::new();
            proof {
                assert(json_members(m) =~= Seq::<(Seq<char>, Json)>::empty());
            }
            push_member(&mut m, "url", JsonValue::string(u));
            push_member(&mut m, "type", JsonValue::string("image"));
            proof {
                assert(json_members(m) =~= seq![("url"@, Json::Str(u@)), ("type"@, Json::Str("image"@))]);
            }
            Ok(JsonValue::Object(m))
        },
        None => Err(validation("Uploaded Substack image has no URL.".to_owned(), None, None)),
    }
}

/// The id of a created attachment, or the error of an answer without one.
pub fn attachment_id(body: &JsonValue) -> (r: Result<String, AppError>)
    ensures
        match spec_extract_id(body@) {
            Some(i) => r matches Ok(s) && s@ == i,
            None => r matches Err(e) && is_bad_gateway(
                e,
                "Substack image attachment response did not include an ID."@,
                body@,
            ),
        },
{
    match extract_id(body) {
        Some(i) => Ok(i),
        None => Err(bad_gateway("Substack image attachment response did not include an ID.".to_owned(), body)),
    }
}

/// The request id of a Substack answer: `x-request-id`, else `cf-ray`, else
/// `x-amzn-trace-id`.
pub fn response_request_id(
    x_request_id: Option<String>,
    cf_ray: Option<String>,
    amzn_trace_id: Option<String>,
) -> (r: Option<String>)
    ensures
        opt_seq(r) == match opt_seq(x_request_id) {
            Some(v) => Some(v),
            None => match opt_seq(cf_ray) {
                Some(v) => Some(v),
                None => opt_seq(amzn_trace_id),
            },
        },
{
    match x_request_id {
        Some(v) => Some(v),
        None => match cf_ray {
            Some(v) => Some(v),
            None => amzn_trace_id,
        },
    }
}

} // verus!
