//! The publish guard: content hashes, the fingerprint of a post, the
//! duplicate check against the publish log, and the signature a post gets.
use vstd::prelude::*;

use crate::chars::chars_of;
use crate::config::{RuntimeConfig, SignatureLayer};
use crate::errors::{copy_opt, is_io, is_validation, opt_seq, validation, AppError};
use crate::json::{insert_member, spec_object_insert, Json, JsonValue};
use crate::lines::{join_lines, spec_join};
use crate::note::{lemma_string_views_push, spec_string_views};
use crate::publish::{lemma_token_end_bounds, spec_token_end};
use crate::text::{
    concat2, concat4, concat5, is_whitespace, slice_chars, spec_is_whitespace,
};

verus! {

/// The SHA-256 digest of `bytes`.
pub uninterp spec fn spec_sha256(bytes: Seq<u8>) -> Seq<u8>;

/// `sha2::Sha256::digest(bytes)` as bytes. The contract names the digest and
/// states its length, 32 bytes.
#[verifier::external_body]
pub(crate) fn sha256_digest(bytes: &[u8]) -> (d: Vec<u8>)
    ensures
        d@ == spec_sha256(bytes@),
        d@.len() == 32,
{
    <sha2::Sha256 as sha2::Digest>::digest(bytes).to_vec()
}

/// A lower-case hexadecimal digit.
pub open spec fn spec_lower_hex_digit(d: u8) -> char {
    if d < 10 {
        ((48 + d) as u32) as char
    } else {
        ((87 + d) as u32) as char
    }
}

/// Bytes in lower-case hexadecimal, two digits each (the `{:x}` form of a digest).
pub open spec fn spec_lower_hex(bytes: Seq<u8>) -> Seq<char>
    decreases bytes.len(),
{
    if bytes.len() == 0 {
        seq![]
    } else {
        spec_lower_hex(bytes.drop_last()) + seq![
            spec_lower_hex_digit(bytes.last() / 16),
            spec_lower_hex_digit(bytes.last() % 16),
        ]
    }
}

fn lower_hex_digit(d: u8) -> (c: char)
    requires
        d < 16,
    ensures
        c == spec_lower_hex_digit(d),
{
    if d < 10 {
        ((48 + d) as u8) as char
    } else {
        ((87 + d) as u8) as char
    }
}

/// Bytes in lower-case hexadecimal.
pub fn lower_hex(bytes: &Vec<u8>) -> (s: String)
    ensures
        s@ == spec_lower_hex(bytes@),
{
    let mut out: Vec<char> = Vec::new();
    let mut i: usize = 0;
    while i < bytes.len()
        invariant
            0 <= i <= bytes@.len(),
            out@ == spec_lower_hex(bytes@.subrange(0, i as int)),
        decreases bytes.len() - i,
    {
        let b = bytes[i];
        out.push(lower_hex_digit(b / 16));
        out.push(lower_hex_digit(b % 16));
        proof {
            assert(bytes@.subrange(0, i + 1).drop_last() =~= bytes@.subrange(0, i as int));
            assert(out@ =~= spec_lower_hex(bytes@.subrange(0, i + 1)));
        }
        i = i + 1;
    }
    proof {
        assert(bytes@.subrange(0, bytes@.len() as int) =~= bytes@);
    }
    crate::chars::string_from_chars(out.as_slice())
}

/// The SHA-256 digest of `bytes` in lower-case hexadecimal.
pub open spec fn spec_sha256_hex(bytes: Seq<u8>) -> Seq<char> {
    spec_lower_hex(spec_sha256(bytes))
}

fn sha256_hex(bytes: &[u8]) -> (h: String)
    ensures
        h@ == spec_sha256_hex(bytes@),
{
    let d = sha256_digest(bytes);
    lower_hex(&d)
}

/// The SHA-256 hex digest of a text's UTF-8 bytes.
pub open spec fn spec_text_sha256(text: Seq<char>) -> Seq<char> {
    spec_sha256_hex(vstd::utf8::encode_utf8(text))
}

/// The SHA-256 hex digest of a text's UTF-8 bytes.
pub fn text_sha256(text: &str) -> (h: String)
    ensures
        h@ == spec_text_sha256(text@),
{
    sha256_hex(text.as_bytes())
}

/// The SHA-256 hex digest of raw bytes, such as a file's content.
pub fn content_sha256(bytes: &Vec<u8>) -> (h: String)
    ensures
        h@ == spec_sha256_hex(bytes@),
{
    sha256_hex(bytes.as_slice())
}

/// The whitespace-separated words of `s[i..]` (`str::split_whitespace`).
pub open spec fn spec_words_from(s: Seq<char>, i: int) -> Seq<Seq<char>>
    decreases s.len() - i,
{
    if i < 0 || i >= s.len() {
        seq![]
    } else if spec_is_whitespace(s[i]) {
        spec_words_from(s, i + 1)
    } else {
        proof {
            lemma_token_end_bounds(s, i);
        }
        seq![s.subrange(i, spec_token_end(s, i))] + spec_words_from(s, spec_token_end(s, i))
    }
}

/// The whitespace-separated words of `s`.
pub open spec fn spec_words(s: Seq<char>) -> Seq<Seq<char>> {
    spec_words_from(s, 0)
}

/// A word: not empty and without whitespace.
pub open spec fn spec_is_word(w: Seq<char>) -> bool {
    w.len() > 0 && forall|k: int| 0 <= k < w.len() ==> !spec_is_whitespace(#[trigger] w[k])
}

proof fn lemma_token_end_shift(p: Seq<char>, r: Seq<char>, j: int)
    requires
        0 <= j <= r.len(),
    ensures
        spec_token_end(p + r, p.len() + j) == p.len() + spec_token_end(r, j),
    decreases r.len() - j,
{
    let s = p + r;
    if j < r.len() {
        assert(s[p.len() + j] == r[j]);
        if !spec_is_whitespace(r[j]) {
            lemma_token_end_shift(p, r, j + 1);
        }
    }
}

proof fn lemma_words_from_shift(p: Seq<char>, r: Seq<char>, j: int)
    requires
        0 <= j <= r.len(),
    ensures
        spec_words_from(p + r, p.len() + j) == spec_words_from(r, j),
    decreases r.len() - j,
{
    let s = p + r;
    if j < r.len() {
        assert(s[p.len() + j] == r[j]);
        if spec_is_whitespace(r[j]) {
            lemma_words_from_shift(p, r, j + 1);
        } else {
            lemma_token_end_bounds(r, j);
            lemma_token_end_shift(p, r, j);
            let e = spec_token_end(r, j);
            assert(s.subrange(p.len() + j, p.len() + e) =~= r.subrange(j, e));
            lemma_words_from_shift(p, r, e);
        }
    }
}

proof fn lemma_token_end_of_word(w: Seq<char>, r: Seq<char>)
    requires
        spec_is_word(w),
        r.len() == 0 || spec_is_whitespace(r[0]),
    ensures
        spec_token_end(w + r, 0) == w.len(),
{
    let s = w + r;
    assert forall|i: int| 0 <= i <= w.len() implies spec_token_end(s, i) == w.len() by {
        lemma_token_end_of_word_from(w, r, i);
    }
}

proof fn lemma_token_end_of_word_from(w: Seq<char>, r: Seq<char>, i: int)
    requires
        spec_is_word(w),
        r.len() == 0 || spec_is_whitespace(r[0]),
        0 <= i <= w.len(),
    ensures
        spec_token_end(w + r, i) == w.len(),
    decreases w.len() - i,
{
    let s = w + r;
    if i < w.len() {
        assert(s[i] == w[i]);
        lemma_token_end_of_word_from(w, r, i + 1);
    } else if r.len() > 0 {
        assert(s[i] == r[0]);
    }
}

/// Joining words with single spaces keeps the first word and a space in front.
proof fn lemma_join_front(ws: Seq<Seq<char>>)
    requires
        ws.len() >= 2,
    ensures
        spec_join(ws, " "@) == ws[0] + " "@ + spec_join(ws.drop_first(), " "@),
    decreases ws.len(),
{
    let sep = " "@;
    let a = ws.drop_last();
    let b = ws.drop_first();
    if ws.len() > 2 {
        lemma_join_front(a);
        assert(a.drop_first() =~= b.drop_last());
        assert(a[0] == ws[0]);
        assert(b.last() == ws.last());
        assert(spec_join(b, sep) == spec_join(b.drop_last(), sep) + sep + b.last());
        assert(spec_join(ws, sep) == spec_join(a, sep) + sep + ws.last());
        assert(spec_join(ws, sep) =~= ws[0] + sep + spec_join(b, sep));
    } else {
        assert(b.len() == 1);
        assert(a.len() == 1);
        assert(spec_join(b, sep) == b[0]);
        assert(spec_join(a, sep) == a[0]);
        assert(spec_join(ws, sep) =~= ws[0] + sep + spec_join(b, sep));
    }
}

/// The words of words joined with single spaces are those words.
pub proof fn lemma_words_of_joined_words(ws: Seq<Seq<char>>)
    requires
        forall|k: int| 0 <= k < ws.len() ==> spec_is_word(#[trigger] ws[k]),
    ensures
        spec_words(spec_join(ws, " "@)) == ws,
    decreases ws.len(),
{
    reveal_strlit(" ");
    if ws.len() == 0 {
        assert(spec_words(Seq::<char>::empty()) =~= ws);
        assert(spec_words(spec_join(ws, " "@)) == ws);
    } else if ws.len() == 1 {
        let w = ws[0];
        assert(spec_is_word(w));
        lemma_token_end_of_word(w, Seq::empty());
        assert(w + Seq::<char>::empty() =~= w);
        assert(w.subrange(0, w.len() as int) =~= w);
        assert(spec_token_end(w, 0) == w.len());
        assert(!spec_is_whitespace(w[0]));
        assert(spec_words_from(w, w.len() as int) =~= Seq::<Seq<char>>::empty());
        assert(spec_words_from(w, 0) == seq![w.subrange(0, w.len() as int)] + spec_words_from(w, w.len() as int));
        assert(spec_words(w) =~= seq![w]);
        assert(ws =~= seq![w]);
        assert(spec_join(ws, " "@) == w);
        assert(spec_words(spec_join(ws, " "@)) == ws);
    } else {
        let w = ws[0];
        let rest = ws.drop_first();
        lemma_join_front(ws);
        let jr = spec_join(rest, " "@);
        let tail = " "@ + jr;
        let s = w + tail;
        assert(spec_join(ws, " "@) =~= s);
        assert(spec_is_word(w));
        assert(spec_is_whitespace(tail[0]));
        lemma_token_end_of_word(w, tail);
        assert(s.subrange(0, w.len() as int) =~= w);
        assert(s[w.len() as int] == ' ');
        assert(s =~= (w + " "@) + jr);
        let p = w + " "@;
        assert(p.len() == w.len() + 1);
        lemma_words_from_shift(p, jr, 0int);
        assert(p + jr == s);
        assert forall|k: int| 0 <= k < rest.len() implies spec_is_word(#[trigger] rest[k]) by {
            assert(rest[k] == ws[k + 1]);
        }
        lemma_words_of_joined_words(rest);
        assert(spec_words(jr) == rest);
        assert(spec_words_from(s, w.len() as int + 1) == rest);
        assert(spec_is_whitespace(s[w.len() as int]));
        assert(spec_words_from(s, w.len() as int) == spec_words_from(s, w.len() as int + 1));
        assert(!spec_is_whitespace(s[0]));
        assert(spec_token_end(s, 0) == w.len());
        assert(spec_words_from(s, 0) == seq![s.subrange(0, w.len() as int)] + spec_words_from(s, w.len() as int));
        assert(ws =~= seq![w] + rest);
        assert(spec_words(spec_join(ws, " "@)) == ws);
    }
}

/// Every word of a text is a word: not empty, without whitespace.
pub proof fn lemma_words_are_words(s: Seq<char>, i: int)
    ensures
        forall|k: int| 0 <= k < spec_words_from(s, i).len() ==> spec_is_word(#[trigger] spec_words_from(s, i)[k]),
    decreases s.len() - i,
{
    if 0 <= i < s.len() {
        if spec_is_whitespace(s[i]) {
            lemma_words_are_words(s, i + 1);
            assert(spec_words_from(s, i) == spec_words_from(s, i + 1));
        } else {
            lemma_token_end_bounds(s, i);
            let e = spec_token_end(s, i);
            lemma_words_are_words(s, e);
            assert(i < e);
            let w = s.subrange(i, e);
            assert forall|k: int| 0 <= k < w.len() implies !spec_is_whitespace(#[trigger] w[k]) by {
                assert(w[k] == s[i + k]);
            }
            let rest = spec_words_from(s, e);
            let all = spec_words_from(s, i);
            assert(all == seq![w] + rest);
            assert forall|k: int| 0 <= k < all.len() implies spec_is_word(#[trigger] all[k]) by {
                if k > 0 {
                    assert(all[k] == rest[k - 1]);
                } else {
                    assert(all[0] == w);
                }
            }
        }
    }
}

/// A text with each run of whitespace made one space, and none at either end.
pub open spec fn spec_normalize_spacing(s: Seq<char>) -> Seq<char> {
    spec_join(spec_words(s), " "@)
}

/// The whitespace-separated words of `text`.
pub fn split_words(text: &str) -> (words: Vec<String>)
    ensures
        spec_string_views(words@) == spec_words(text@),
{
    let s = chars_of(text);
    let n = s.len();
    let mut words: Vec<String> = Vec::new();
    let mut i: usize = 0;
    while i < n
        invariant
            n == s@.len(),
            s@ == text@,
            0 <= i <= n,
            spec_string_views(words@) + spec_words_from(s@, i as int) == spec_words(s@),
        decreases n - i,
    {
        if is_whitespace(s[i]) {
            i = i + 1;
        } else {
            let mut e = i;
            while e < n && !is_whitespace(s[e])
                invariant
                    n == s@.len(),
                    i <= e <= n,
                    spec_token_end(s@, e as int) == spec_token_end(s@, i as int),
                decreases n - e,
            {
                e = e + 1;
            }
            proof {
                lemma_token_end_bounds(s@, i as int);
            }
            let w = slice_chars(&s, i, e);
            let word = crate::chars::string_from_chars(w.as_slice());
            let ghost before = words@;
            words.push(word);
            proof {
                lemma_string_views_push(before, word);
                assert(spec_string_views(words@) + spec_words_from(s@, e as int) =~= spec_string_views(
                    before,
                ) + spec_words_from(s@, i as int));
            }
            i = e;
        }
    }
    proof {
        assert(spec_string_views(words@) + Seq::<Seq<char>>::empty() =~= spec_string_views(words@));
    }
    words
}

/// The fingerprint of a post: the SHA-256 of `platform|author|text`, the
/// text with its spacing normalized.
pub open spec fn spec_fingerprint(platform: Seq<char>, author: Seq<char>, text: Seq<char>) -> Seq<char> {
    spec_text_sha256(platform + "|"@ + author + "|"@ + spec_normalize_spacing(text))
}

/// The fingerprint of a post by `author` on `platform`.
pub fn compute_fingerprint(platform: &str, author_urn: &str, commentary: &str) -> (f: String)
    ensures
        f@ == spec_fingerprint(platform@, author_urn@, commentary@),
{
    let words = split_words(commentary);
    let normalized = join_lines(&words, " ");
    let source = concat5(platform, "|", author_urn, "|", normalized.as_str());
    text_sha256(source.as_str())
}

/// Texts with the same words, however spaced, have the same fingerprint.
pub proof fn lemma_fingerprint_ignores_spacing(
    platform: Seq<char>,
    author: Seq<char>,
    a: Seq<char>,
    b: Seq<char>,
)
    requires
        spec_words(a) == spec_words(b),
    ensures
        spec_fingerprint(platform, author, a) == spec_fingerprint(platform, author, b),
{
}

/// The text a fingerprint is taken of: the post text, followed by the media
/// digests when there is media.
pub open spec fn spec_fingerprint_source(text: Seq<char>, media_signature: Seq<char>) -> Seq<char> {
    if media_signature.len() == 0 {
        text
    } else {
        text + "\n[media_sha256:"@ + media_signature + "]"@
    }
}

/// The text a fingerprint is taken of.
pub fn combine_text_and_media_for_fingerprint(text: &str, media_signature: &str) -> (s: String)
    ensures
        s@ == spec_fingerprint_source(text@, media_signature@),
{
    if media_signature.unicode_len() == 0 {
        return text.to_owned();
    }
    concat4(text, "\n[media_sha256:", media_signature, "]")
}

/// The digests of each media file's content, in order.
pub open spec fn spec_media_digests(contents: Seq<Vec<u8>>) -> Seq<Seq<char>> {
    contents.map_values(|c: Vec<u8>| spec_sha256_hex(c@))
}

/// The media signature of a post: the digests of its media files joined by
/// commas; empty without media.
pub open spec fn spec_media_signature(contents: Seq<Vec<u8>>) -> Seq<char> {
    spec_join(spec_media_digests(contents), ","@)
}

/// The media signature of a post from the contents of its media files.
pub fn compute_media_signature(contents: &Vec<Vec<u8>>) -> (s: String)
    ensures
        s@ == spec_media_signature(contents@),
{
    let ghost target = spec_media_digests(contents@);
    let mut parts: Vec<String> = Vec::new();
    let mut i: usize = 0;
    while i < contents.len()
        invariant
            0 <= i <= contents@.len(),
            target == spec_media_digests(contents@),
            spec_string_views(parts@) == target.subrange(0, i as int),
        decreases contents.len() - i,
    {
        let h = content_sha256(&contents[i]);
        let ghost before = parts@;
        parts.push(h);
        proof {
            lemma_string_views_push(before, h);
            assert(target.subrange(0, i + 1) =~= target.subrange(0, i as int).push(h@));
        }
        i = i + 1;
    }
    proof {
        assert(target.subrange(0, contents@.len() as int) =~= target);
    }
    join_lines(&parts, ",")
}

/// LinkedIn "little text" reserved characters, which the commentary escapes.
pub open spec fn spec_is_little_reserved(c: char) -> bool {
    c == '|' || c == '{' || c == '}' || c == '@' || c == '[' || c == ']' || c == '(' || c == ')'
        || c == '<' || c == '>' || c == '#' || c == '\\' || c == '*' || c == '_' || c == '~'
}

/// A text with a backslash before each reserved character.
pub open spec fn spec_escape_little_text(s: Seq<char>) -> Seq<char>
    decreases s.len(),
{
    if s.len() == 0 {
        seq![]
    } else {
        let c = s.last();
        spec_escape_little_text(s.drop_last()) + if spec_is_little_reserved(c) {
            seq!['\\', c]
        } else {
            seq![c]
        }
    }
}

/// Escapes a text for LinkedIn's "little text" commentary format.
pub fn escape_little_text_plain(input: &str) -> (out: String)
    ensures
        out@ == spec_escape_little_text(input@),
{
    let s = chars_of(input);
    let mut out: Vec<char> = Vec::new();
    let mut i: usize = 0;
    while i < s.len()
        invariant
            s@ == input@,
            0 <= i <= s@.len(),
            out@ == spec_escape_little_text(s@.subrange(0, i as int)),
        decreases s.len() - i,
    {
        let c = s[i];
        if c == '|' || c == '{' || c == '}' || c == '@' || c == '[' || c == ']' || c == '('
            || c == ')' || c == '<' || c == '>' || c == '#' || c == '\\' || c == '*' || c == '_'
            || c == '~' {
            out.push('\\');
            out.push(c);
        } else {
            out.push(c);
        }
        proof {
            assert(s@.subrange(0, i + 1).drop_last() =~= s@.subrange(0, i as int));
            assert(out@ =~= spec_escape_little_text(s@.subrange(0, i + 1)));
        }
        i = i + 1;
    }
    proof {
        assert(s@.subrange(0, s@.len() as int) =~= s@);
    }
    crate::chars::string_from_chars(out.as_slice())
}

/// The text the escaping started from: each backslash drops, and the
/// character after it is kept as it is.
pub open spec fn spec_unescape_little_text(s: Seq<char>) -> Seq<char>
    decreases s.len(),
{
    if s.len() == 0 {
        seq![]
    } else if s[0] == '\\' && s.len() >= 2 {
        seq![s[1]] + spec_unescape_little_text(s.subrange(2, s.len() as int))
    } else {
        seq![s[0]] + spec_unescape_little_text(s.drop_first())
    }
}

proof fn lemma_escape_then_unescape_from(s: Seq<char>, tail: Seq<char>)
    ensures
        spec_unescape_little_text(spec_escape_little_text(s) + tail) == s
            + spec_unescape_little_text(tail),
    decreases s.len(),
{
    if s.len() > 0 {
        let c = s.last();
        let piece: Seq<char> = if spec_is_little_reserved(c) {
            seq!['\\', c]
        } else {
            seq![c]
        };
        assert(spec_escape_little_text(s) + tail =~= spec_escape_little_text(s.drop_last()) + (
        piece + tail));
        lemma_escape_then_unescape_from(s.drop_last(), piece + tail);
        if spec_is_little_reserved(c) {
            assert((piece + tail)[0] == '\\');
            assert((piece + tail).subrange(2, (piece + tail).len() as int) =~= tail);
            assert(spec_unescape_little_text(piece + tail) == seq![c] + spec_unescape_little_text(
                tail,
            ));
        } else {
            assert((piece + tail).drop_first() =~= tail);
            if c == '\\' {
                assert(spec_is_little_reserved(c));
            }
            assert(spec_unescape_little_text(piece + tail) == seq![c] + spec_unescape_little_text(
                tail,
            ));
        }
        assert(s.drop_last() + (seq![c] + spec_unescape_little_text(tail)) =~= s
            + spec_unescape_little_text(tail));
    } else {
        assert(spec_escape_little_text(s) + tail =~= tail);
        assert(s + spec_unescape_little_text(tail) =~= spec_unescape_little_text(tail));
    }
}

/// Escaping loses nothing: dropping each escaping backslash gives the text back.
pub proof fn lemma_escape_little_text_roundtrip(s: Seq<char>)
    ensures
        spec_unescape_little_text(spec_escape_little_text(s)) == s,
{
    lemma_escape_then_unescape_from(s, seq![]);
    assert(spec_escape_little_text(s) + Seq::<char>::empty() =~= spec_escape_little_text(s));
    assert(s + Seq::<char>::empty() =~= s);
}

/// What the CLI flags ask of the signature: `--add-signature` wins over
/// `--no-signature`; neither leaves it to the config.
pub open spec fn spec_signature_cli_override(add_signature: bool, no_signature: bool) -> Option<bool> {
    if add_signature {
        Some(true)
    } else if no_signature {
        Some(false)
    } else {
        None
    }
}

/// What the CLI flags ask of the signature.
pub fn signature_cli_override(add_signature: bool, no_signature: bool) -> (r: Option<bool>)
    ensures
        r == spec_signature_cli_override(add_signature, no_signature),
{
    if add_signature {
        Some(true)
    } else if no_signature {
        Some(false)
    } else {
        None
    }
}

/// The platforms a post signature is configured for.
#[derive(Clone, Copy, PartialEq, Eq, Structural, Debug)]
pub enum PublishPlatformKind {
    Linkedin,
    X,
}

/// The signature layer of a platform.
pub open spec fn spec_platform_layer(config: RuntimeConfig, platform: PublishPlatformKind) -> SignatureLayer {
    match platform {
        PublishPlatformKind::Linkedin => config.linkedin_signature,
        PublishPlatformKind::X => config.x_signature,
    }
}

/// Whether a post gets a signature: the CLI flag, else the platform's
/// setting, else the global one, else no.
pub open spec fn spec_signature_enabled(
    config: RuntimeConfig,
    platform: PublishPlatformKind,
    cli_override: Option<bool>,
) -> bool {
    match cli_override {
        Some(b) => b,
        None => match spec_platform_layer(config, platform).enabled {
            Some(b) => b,
            None => match config.global_signature.enabled {
                Some(b) => b,
                None => false,
            },
        },
    }
}

/// The signature text: the platform's when it sets one, else the global one.
pub open spec fn spec_signature_text(config: RuntimeConfig, platform: PublishPlatformKind) -> Option<Seq<char>> {
    match opt_seq(spec_platform_layer(config, platform).text) {
        Some(t) => Some(t),
        None => opt_seq(config.global_signature.text),
    }
}

/// The name of a platform in messages.
pub open spec fn spec_platform_kind_name(platform: PublishPlatformKind) -> Seq<char> {
    match platform {
        PublishPlatformKind::Linkedin => "linkedin"@,
        PublishPlatformKind::X => "x"@,
    }
}

/// The signature a post gets: none when disabled; else the configured text,
/// which must not be empty.
pub open spec fn spec_signature_result(
    r: Result<Option<String>, AppError>,
    config: RuntimeConfig,
    platform: PublishPlatformKind,
    cli_override: Option<bool>,
) -> bool {
    if !spec_signature_enabled(config, platform, cli_override) {
        r matches Ok(None)
    } else {
        match spec_signature_text(config, platform) {
            Some(t) if t.len() > 0 => r matches Ok(Some(x)) && x@ == t,
            _ => r matches Err(e) && is_validation(
                e,
                "Signature is enabled for "@ + spec_platform_kind_name(platform)
                    + " but no signature text is configured."@,
                Some("Set [signature].text (or [platform.<name>.signature].text) in config.toml."@),
                None,
            ),
        }
    }
}

/// Signature precedence: the CLI flag decides first; without it, the
/// platform's `enabled` decides whenever it is set, whatever the global
/// setting says; without both, the global `enabled`; else no signature.
/// (`false` means no signature; `true` means the configured text, or an
/// error when there is none.)
pub proof fn lemma_signature_precedence(
    config: RuntimeConfig,
    platform: PublishPlatformKind,
    cli_override: Option<bool>,
    r: Result<Option<String>, AppError>,
)
    requires
        spec_signature_result(r, config, platform, cli_override),
    ensures
        ({
            let platform_enabled = match platform {
                PublishPlatformKind::Linkedin => config.linkedin_signature.enabled,
                PublishPlatformKind::X => config.x_signature.enabled,
            };
            let decided = match cli_override {
                Some(b) => Some(b),
                None => match platform_enabled {
                    Some(b) => Some(b),
                    None => config.global_signature.enabled,
                },
            };
            &&& cli_override == Some(false) ==> (r matches Ok(None))
            &&& cli_override is None && platform_enabled == Some(false) ==> (r matches Ok(None))
            &&& cli_override is None && platform_enabled == Some(true) ==> !(r matches Ok(None))
            &&& decided != Some(true) ==> (r matches Ok(None))
            &&& decided == Some(true) ==> !(r matches Ok(None))
        }),
{
}

/// The signature a post on `platform` gets.
pub fn resolve_signature_text(
    config: &RuntimeConfig,
    platform: PublishPlatformKind,
    cli_override_enabled: Option<bool>,
) -> (r: Result<Option<String>, AppError>)
    ensures
        spec_signature_result(r, *config, platform, cli_override_enabled),
{
    let layer = match platform {
        PublishPlatformKind::Linkedin => &config.linkedin_signature,
        PublishPlatformKind::X => &config.x_signature,
    };
    let name = match platform {
        PublishPlatformKind::Linkedin => "linkedin",
        PublishPlatformKind::X => "x",
    };
    let enabled = match cli_override_enabled {
        Some(b) => b,
        None => match layer.enabled {
            Some(b) => b,
            None => match config.global_signature.enabled {
                Some(b) => b,
                None => false,
            },
        },
    };
    if !enabled {
        return Ok(None);
    }
    let text = match &layer.text {
        Some(t) => Some(t.clone()),
        None => copy_opt(&config.global_signature.text),
    };
    match text {
        Some(t) => {
            if t.as_str().unicode_len() > 0 {
                return Ok(Some(t));
            }
        },
        None => {},
    }
    let message = crate::text::concat3("Signature is enabled for ", name, " but no signature text is configured.");
    Err(
        validation(
            message,
            Some("Set [signature].text (or [platform.<name>.signature].text) in config.toml."),
            None,
        ),
    )
}

/// One line of the publish log: a post that went out.
#[derive(Debug)]
pub struct PublishLogEntry {
    pub platform: String,
    pub author_urn: String,
    pub file_path: String,
    pub fingerprint: String,
    pub file_sha256: String,
    pub text_sha256: String,
    pub post_id: Option<String>,
    pub post_url: Option<String>,
    pub request_id: Option<String>,
    pub published_at: String,
}

/// A log entry of the same platform, author and fingerprint.
pub open spec fn spec_entry_matches(
    e: PublishLogEntry,
    platform: Seq<char>,
    author: Seq<char>,
    fingerprint: Seq<char>,
) -> bool {
    e.platform@ == platform && e.author_urn@ == author && e.fingerprint@ == fingerprint
}

/// The newest match among the first `hi` lines of the log, read from the
/// newest line back; a line that does not parse stops the search with its
/// error text.
pub open spec fn spec_find_existing(
    log: Seq<Result<PublishLogEntry, String>>,
    platform: Seq<char>,
    author: Seq<char>,
    fingerprint: Seq<char>,
    hi: int,
) -> Result<Option<int>, Seq<char>>
    decreases hi,
{
    if hi <= 0 || hi > log.len() {
        Ok(None)
    } else {
        match log[hi - 1] {
            Err(m) => Err(m@),
            Ok(e) => if spec_entry_matches(e, platform, author, fingerprint) {
                Ok(Some(hi - 1))
            } else {
                spec_find_existing(log, platform, author, fingerprint, hi - 1)
            },
        }
    }
}

/// The newest earlier publish of the same content by the same author on the
/// same platform; `log` holds the parsed non-blank lines of the publish log,
/// oldest first, each an entry or the text of its parse error.
pub fn find_existing_publish(
    log: &Vec<Result<PublishLogEntry, String>>,
    platform: &str,
    author_urn: &str,
    fingerprint: &str,
) -> (r: Result<Option<usize>, AppError>)
    ensures
        match spec_find_existing(log@, platform@, author_urn@, fingerprint@, log@.len() as int) {
            Ok(Some(k)) => r matches Ok(Some(j)) && j == k,
            Ok(None) => r matches Ok(None),
            Err(m) => r matches Err(e) && is_io(e, "Failed to parse publish log entry: "@ + m),
        },
{
    let mut hi = log.len();
    while hi > 0
        invariant
            0 <= hi <= log@.len(),
            spec_find_existing(log@, platform@, author_urn@, fingerprint@, log@.len() as int)
                == spec_find_existing(log@, platform@, author_urn@, fingerprint@, hi as int),
        decreases hi,
    {
        match &log[hi - 1] {
            Err(m) => {
                let message = concat2("Failed to parse publish log entry: ", m.as_str());
                return Err(AppError::Io { message });
            },
            Ok(e) => {
                if crate::chars::str_eq(e.platform.as_str(), platform) && crate::chars::str_eq(
                    e.author_urn.as_str(),
                    author_urn,
                ) && crate::chars::str_eq(e.fingerprint.as_str(), fingerprint) {
                    return Ok(Some(hi - 1));
                }
            },
        }
        hi = hi - 1;
    }
    Ok(None)
}

/// `e` is the error of a blocked duplicate that points at `existing`.
pub open spec fn is_duplicate_of(
    e: AppError,
    existing: PublishLogEntry,
    file_sha256: Seq<char>,
    fingerprint: Seq<char>,
) -> bool {
    e matches AppError::DuplicatePublish {
        message,
        existing_post_id,
        existing_post_url,
        file_sha256: f,
        fingerprint: g,
        existing_published_at,
    } && message@ == "Duplicate publish blocked for same platform/author/content."@ && opt_seq(
        existing_post_id,
    ) == opt_seq(existing.post_id) && opt_seq(existing_post_url) == opt_seq(existing.post_url)
        && f@ == file_sha256 && g@ == fingerprint && existing_published_at@
        == existing.published_at@
}

/// The duplicate guard: unless duplicates are allowed, a post whose platform,
/// author and fingerprint are already in the log is refused.
pub open spec fn spec_duplicate_result(
    r: Result<(), AppError>,
    log: Seq<Result<PublishLogEntry, String>>,
    platform: Seq<char>,
    author: Seq<char>,
    fingerprint: Seq<char>,
    file_sha256: Seq<char>,
    allow_duplicate: bool,
) -> bool {
    if allow_duplicate {
        r is Ok
    } else {
        match spec_find_existing(log, platform, author, fingerprint, log.len() as int) {
            Ok(None) => r is Ok,
            Ok(Some(k)) => r matches Err(e) && log[k] matches Ok(existing) && is_duplicate_of(
                e,
                existing,
                file_sha256,
                fingerprint,
            ),
            Err(m) => r matches Err(e) && is_io(e, "Failed to parse publish log entry: "@ + m),
        }
    }
}

/// The duplicate guard of a publish.
pub fn maybe_block_duplicate(
    log: &Vec<Result<PublishLogEntry, String>>,
    platform: &str,
    author_key: &str,
    fingerprint: &str,
    file_sha256: &str,
    allow_duplicate: bool,
) -> (r: Result<(), AppError>)
    ensures
        spec_duplicate_result(
            r,
            log@,
            platform@,
            author_key@,
            fingerprint@,
            file_sha256@,
            allow_duplicate,
        ),
{
    if allow_duplicate {
        return Ok(());
    }
    match find_existing_publish(log, platform, author_key, fingerprint) {
        Err(e) => Err(e),
        Ok(None) => Ok(()),
        Ok(Some(k)) => {
            proof {
                lemma_find_existing_in_range(
                    log@,
                    platform@,
                    author_key@,
                    fingerprint@,
                    log@.len() as int,
                );
            }
            match &log[k] {
                Ok(existing) => Err(
                    AppError::DuplicatePublish {
                        message: "Duplicate publish blocked for same platform/author/content.".to_owned(),
                        existing_post_id: copy_opt(&existing.post_id),
                        existing_post_url: copy_opt(&existing.post_url),
                        file_sha256: file_sha256.to_owned(),
                        fingerprint: fingerprint.to_owned(),
                        existing_published_at: existing.published_at.clone(),
                    },
                ),
                Err(_) => {
                    proof {
                        assert(false);
                    }
                    Ok(())
                },
            }
        },
    }
}

proof fn lemma_find_existing_in_range(
    log: Seq<Result<PublishLogEntry, String>>,
    platform: Seq<char>,
    author: Seq<char>,
    fingerprint: Seq<char>,
    hi: int,
)
    ensures
        spec_find_existing(log, platform, author, fingerprint, hi) matches Ok(Some(k)) ==> (0 <= k
            < hi && k < log.len() && (log[k] matches Ok(e) && spec_entry_matches(
            e,
            platform,
            author,
            fingerprint,
        ))),
    decreases hi,
{
    if hi > 0 && hi <= log.len() {
        lemma_find_existing_in_range(log, platform, author, fingerprint, hi - 1);
    }
}

proof fn lemma_find_existing_past(
    log: Seq<Result<PublishLogEntry, String>>,
    platform: Seq<char>,
    author: Seq<char>,
    fingerprint: Seq<char>,
    k: int,
    hi: int,
)
    requires
        0 <= k < hi <= log.len(),
        log[k] matches Ok(e) && spec_entry_matches(e, platform, author, fingerprint),
        forall|j: int| k < j < log.len() ==> (#[trigger] log[j]) is Ok,
    ensures
        spec_find_existing(log, platform, author, fingerprint, hi) matches Ok(Some(j)) && k <= j < hi
            && (log[j] matches Ok(e2) && spec_entry_matches(e2, platform, author, fingerprint)),
    decreases hi,
{
    if hi - 1 > k {
        assert(log[hi - 1] is Ok);
        lemma_find_existing_past(log, platform, author, fingerprint, k, hi - 1);
    }
}

/// A logged publish is found however many other posts follow it: when some
/// entry of the log is the same content by the same author on the same
/// platform, and every newer line parses, the search finds a matching entry
/// at or after it, and the guard refuses the publish (unless duplicates are
/// allowed), pointing at that entry; other posts of that author and platform
/// logged after it change nothing.
pub proof fn lemma_logged_publish_found_past_newer_posts(
    log: Seq<Result<PublishLogEntry, String>>,
    platform: Seq<char>,
    author: Seq<char>,
    fingerprint: Seq<char>,
    k: int,
    file_sha256: Seq<char>,
    r: Result<(), AppError>,
)
    requires
        0 <= k < log.len(),
        log[k] matches Ok(e) && e.platform@ == platform && e.author_urn@ == author && e.fingerprint@ == fingerprint,
        forall|j: int| k < j < log.len() ==> (#[trigger] log[j]) is Ok,
        spec_duplicate_result(r, log, platform, author, fingerprint, file_sha256, false),
    ensures
        spec_find_existing(log, platform, author, fingerprint, log.len() as int) matches Ok(Some(j)) && k <= j
            < log.len() && (log[j] matches Ok(e2) && e2.platform@ == platform && e2.author_urn@ == author
            && e2.fingerprint@ == fingerprint),
        r matches Err(err) && (err is DuplicatePublish),
{
    lemma_find_existing_past(log, platform, author, fingerprint, k, log.len() as int);
}

/// Once a post is logged, the same content by the same author on the same
/// platform is refused, whatever the log held before, unless duplicates are
/// allowed; the refusal points at the logged post.
pub proof fn lemma_logged_publish_blocks_repeat(
    log: Seq<Result<PublishLogEntry, String>>,
    entry: PublishLogEntry,
    file_sha256: Seq<char>,
    r: Result<(), AppError>,
)
    requires
        spec_duplicate_result(
            r,
            log.push(Ok(entry)),
            entry.platform@,
            entry.author_urn@,
            entry.fingerprint@,
            file_sha256,
            false,
        ),
    ensures
        r matches Err(e) && is_duplicate_of(e, entry, file_sha256, entry.fingerprint@),
{
    let l = log.push(Ok(entry));
    assert(l[l.len() - 1] == Ok::<PublishLogEntry, String>(entry));
    assert(spec_find_existing(l, entry.platform@, entry.author_urn@, entry.fingerprint@, l.len() as int)
        == Ok::<Option<int>, Seq<char>>(Some(l.len() - 1)));
}

/// The guard fields a publish result carries.
pub open spec fn spec_with_publish_metadata(
    v: Json,
    fingerprint: Seq<char>,
    file_sha256: Seq<char>,
    text_sha256: Seq<char>,
    duplicate_checked: bool,
) -> Json {
    match v {
        Json::Object(m) => Json::Object(
            spec_object_insert(
                spec_object_insert(
                    spec_object_insert(
                        spec_object_insert(
                            m,
                            "duplicate_guard"@,
                            Json::Str(
                                if duplicate_checked {
                                    "checked"@
                                } else {
                                    "bypassed"@
                                },
                            ),
                        ),
                        "fingerprint"@,
                        Json::Str(fingerprint),
                    ),
                    "file_sha256"@,
                    Json::Str(file_sha256),
                ),
                "text_sha256"@,
                Json::Str(text_sha256),
            ),
        ),
        _ => v,
    }
}

/// Adds the guard fields (`duplicate_guard`, `fingerprint`, `file_sha256`,
/// `text_sha256`) to a publish result object.
pub fn attach_publish_metadata(
    value: JsonValue,
    fingerprint: &str,
    file_sha256: &str,
    text_sha256: &str,
    duplicate_checked: bool,
) -> (r: JsonValue)
    ensures
        r@ == spec_with_publish_metadata(
            value@,
            fingerprint@,
            file_sha256@,
            text_sha256@,
            duplicate_checked,
        ),
{
    match value {
        JsonValue::Object(mut members) => {
            let guard = if duplicate_checked {
                "checked"
            } else {
                "bypassed"
            };
            insert_member(&mut members, "duplicate_guard", JsonValue::string(guard));
            insert_member(&mut members, "fingerprint", JsonValue::string(fingerprint));
            insert_member(&mut members, "file_sha256", JsonValue::string(file_sha256));
            insert_member(&mut members, "text_sha256", JsonValue::string(text_sha256));
            JsonValue::Object(members)
        },
        other => other,
    }
}

} // verus!
