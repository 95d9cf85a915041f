//! Platform rules for publish text and media: X's weighted length and cashtag
//! limit, image counts per platform, allowed image types, and where a note's
//! media is found.
use vstd::prelude::*;

use crate::chars::{chars_of, is_ascii_alphanumeric, spec_is_ascii_alphanumeric, string_from_chars};
use crate::errors::{is_validation, validation, AppError};
use crate::note::{spec_string_views, lemma_string_views_push};
use crate::paths::{path_extension, path_is_absolute, path_join, path_parent, spec_path_extension,
    spec_path_is_absolute, spec_path_join, spec_path_parent};
use crate::text::{
    ascii_lowercase_chars, concat3, decimal, is_whitespace, lemma_trim_end_while_at,
    slice_chars, spec_ascii_lowercase, spec_decimal, spec_is_whitespace, spec_starts_with,
    spec_trim, spec_trim_end_while, spec_trim_start_while, trim, trim_start_char, matches_at,
};
use crate::urls::{spec_url_parse, url_parse};

verus! {

/// The Hangul, CJK, kana and CJK-compatibility blocks.
pub open spec fn spec_is_cjk(c: char) -> bool {
    let u = c as u32;
    ||| 0x1100 <= u <= 0x11FF
    ||| 0x2E80 <= u <= 0x2EFF
    ||| 0x2F00 <= u <= 0x2FDF
    ||| 0x3040 <= u <= 0x309F
    ||| 0x30A0 <= u <= 0x30FF
    ||| 0x3100 <= u <= 0x312F
    ||| 0x3130 <= u <= 0x318F
    ||| 0x31A0 <= u <= 0x31BF
    ||| 0x31C0 <= u <= 0x31EF
    ||| 0x31F0 <= u <= 0x31FF
    ||| 0x3400 <= u <= 0x4DBF
    ||| 0x4E00 <= u <= 0x9FFF
    ||| 0xA960 <= u <= 0xA97F
    ||| 0xAC00 <= u <= 0xD7AF
    ||| 0xF900 <= u <= 0xFAFF
    ||| 0xFE30 <= u <= 0xFE4F
    ||| 0x20000 <= u <= 0x2FA1F
}

/// Whether `ch` lies in a CJK block.
pub fn is_cjk(ch: char) -> (b: bool)
    ensures
        b == spec_is_cjk(ch),
{
    let u = ch as u32;
    (0x1100 <= u && u <= 0x11FF) || (0x2E80 <= u && u <= 0x2EFF) || (0x2F00 <= u && u <= 0x2FDF)
        || (0x3040 <= u && u <= 0x309F) || (0x30A0 <= u && u <= 0x30FF) || (0x3100 <= u && u
        <= 0x312F) || (0x3130 <= u && u <= 0x318F) || (0x31A0 <= u && u <= 0x31BF) || (0x31C0
        <= u && u <= 0x31EF) || (0x31F0 <= u && u <= 0x31FF) || (0x3400 <= u && u <= 0x4DBF)
        || (0x4E00 <= u && u <= 0x9FFF) || (0xA960 <= u && u <= 0xA97F) || (0xAC00 <= u && u
        <= 0xD7AF) || (0xF900 <= u && u <= 0xFAFF) || (0xFE30 <= u && u <= 0xFE4F) || (0x20000
        <= u && u <= 0x2FA1F)
}

/// The emoji and symbol blocks.
pub open spec fn spec_is_emoji_like(c: char) -> bool {
    let u = c as u32;
    ||| 0x1F300 <= u <= 0x1F5FF
    ||| 0x1F600 <= u <= 0x1F64F
    ||| 0x1F680 <= u <= 0x1F6FF
    ||| 0x1F700 <= u <= 0x1F77F
    ||| 0x1F780 <= u <= 0x1F7FF
    ||| 0x1F800 <= u <= 0x1F8FF
    ||| 0x1F900 <= u <= 0x1F9FF
    ||| 0x1FA00 <= u <= 0x1FAFF
    ||| 0x2600 <= u <= 0x26FF
    ||| 0x2700 <= u <= 0x27BF
}

/// Whether `ch` lies in an emoji or symbol block.
pub fn is_emoji_like(ch: char) -> (b: bool)
    ensures
        b == spec_is_emoji_like(ch),
{
    let u = ch as u32;
    (0x1F300 <= u && u <= 0x1F5FF) || (0x1F600 <= u && u <= 0x1F64F) || (0x1F680 <= u && u
        <= 0x1F6FF) || (0x1F700 <= u && u <= 0x1F77F) || (0x1F780 <= u && u <= 0x1F7FF) || (
    0x1F800 <= u && u <= 0x1F8FF) || (0x1F900 <= u && u <= 0x1F9FF) || (0x1FA00 <= u && u
        <= 0x1FAFF) || (0x2600 <= u && u <= 0x26FF) || (0x2700 <= u && u <= 0x27BF)
}

/// X's weight of a character: 1 for ASCII, 2 for anything else (CJK and emoji included).
pub open spec fn spec_x_char_weight(c: char) -> nat {
    if (c as u32) < 128 {
        1
    } else {
        2
    }
}

/// X's weight of a character.
pub fn x_char_weight(ch: char) -> (w: usize)
    ensures
        w == spec_x_char_weight(ch),
{
    if (ch as u32) < 128 {
        return 1;
    }
    if is_cjk(ch) || is_emoji_like(ch) {
        return 2;
    }
    2
}

/// The closing punctuation stripped from the end of a URL-like token.
pub open spec fn spec_is_url_trailing_punct(c: char) -> bool {
    c == ',' || c == '.' || c == '!' || c == '?' || c == ';' || c == ':' || c == ')' || c == ']'
        || c == '}' || c == '"' || c == '\''
}

/// A token without its trailing closing punctuation and without its leading
/// `(`, then `[`, then `{` runs.
pub open spec fn spec_url_candidate(token: Seq<char>) -> Seq<char> {
    spec_trim_start_while(
        spec_trim_start_while(
            spec_trim_start_while(
                spec_trim_end_while(token, |c: char| spec_is_url_trailing_punct(c)),
                |c: char| c == '(',
            ),
            |c: char| c == '[',
        ),
        |c: char| c == '{',
    )
}

/// A token counts as a URL when, stripped of surrounding punctuation, it starts
/// with `http://` or `https://` (in any case) and `url` parses it.
pub open spec fn spec_looks_like_url(token: Seq<char>) -> bool {
    let stripped = spec_url_candidate(token);
    let lower = spec_ascii_lowercase(stripped);
    (spec_starts_with(lower, "http://"@) || spec_starts_with(lower, "https://"@)) && spec_url_parse(
        stripped,
    ) is Ok
}

fn is_url_trailing_punct(c: char) -> (b: bool)
    ensures
        b == spec_is_url_trailing_punct(c),
{
    c == ',' || c == '.' || c == '!' || c == '?' || c == ';' || c == ':' || c == ')' || c == ']'
        || c == '}' || c == '"' || c == '\''
}

fn url_candidate(token: &Vec<char>) -> (t: Vec<char>)
    ensures
        t@ == spec_url_candidate(token@),
{
    let n = token.len();
    let mut end: usize = n;
    while end > 0 && is_url_trailing_punct(token[end - 1])
        invariant
            n == token@.len(),
            0 <= end <= n,
            forall|j: int| end <= j < n ==> spec_is_url_trailing_punct(token@[j]),
        decreases end,
    {
        end = end - 1;
    }
    proof {
        lemma_trim_end_while_at(token@, |c: char| spec_is_url_trailing_punct(c), end as int);
    }
    let a = slice_chars(token, 0, end);
    let b = trim_start_char(&a, '(');
    let c = trim_start_char(&b, '[');
    trim_start_char(&c, '{')
}

fn chars_lit(s: &str) -> (v: Vec<char>)
    ensures
        v@ == s@,
{
    chars_of(s)
}

/// Whether a whitespace-free token counts as a URL for X's length rule.
pub fn looks_like_url(token: &str) -> (b: bool)
    ensures
        b == spec_looks_like_url(token@),
{
    let t = chars_of(token);
    let stripped = url_candidate(&t);
    let lower = ascii_lowercase_chars(&stripped);
    let http = chars_lit("http://");
    let https = chars_lit("https://");
    if matches_at(&lower, &http, 0) || matches_at(&lower, &https, 0) {
        let s = string_from_chars(stripped.as_slice());
        url_parse(s.as_str()).is_ok()
    } else {
        false
    }
}

/// The end of the whitespace-free run that starts at `i`.
pub open spec fn spec_token_end(s: Seq<char>, i: int) -> int
    decreases s.len() - i,
{
    if i < 0 || i >= s.len() || spec_is_whitespace(s[i]) {
        i
    } else {
        spec_token_end(s, i + 1)
    }
}

/// The sum of X's character weights.
pub open spec fn spec_char_weights(t: Seq<char>) -> nat
    decreases t.len(),
{
    if t.len() == 0 {
        0
    } else {
        spec_x_char_weight(t[0]) + spec_char_weights(t.drop_first())
    }
}

/// X's weight of a token: 23 for a URL, else the weight of its characters.
pub open spec fn spec_token_weight(t: Seq<char>) -> nat {
    if spec_looks_like_url(t) {
        23
    } else {
        spec_char_weights(t)
    }
}

/// The end of the token at `i`: within `s`, past `i` when a token starts
/// there, with no whitespace before it and whitespace or the end at it.
pub proof fn lemma_token_end_bounds(s: Seq<char>, i: int)
    requires
        0 <= i <= s.len(),
    ensures
        i <= spec_token_end(s, i) <= s.len(),
        i < s.len() && !spec_is_whitespace(s[i]) ==> i < spec_token_end(s, i),
        forall|k: int| i <= k < spec_token_end(s, i) ==> !spec_is_whitespace(s[k]),
        spec_token_end(s, i) == s.len() || spec_is_whitespace(s[spec_token_end(s, i)]),
    decreases s.len() - i,
{
    if i < s.len() && !spec_is_whitespace(s[i]) {
        lemma_token_end_bounds(s, i + 1);
    }
}

/// X's weighted length of `s[i..]`: each whitespace character counts 1 and each
/// maximal whitespace-free token counts its token weight.
pub open spec fn spec_weighted_from(s: Seq<char>, i: int) -> nat
    decreases s.len() - i,
{
    if i < 0 || i >= s.len() {
        0
    } else if spec_is_whitespace(s[i]) {
        1 + spec_weighted_from(s, i + 1)
    } else {
        let e = spec_token_end(s, i);
        proof {
            lemma_token_end_bounds(s, i);
        }
        spec_token_weight(s.subrange(i, e)) + spec_weighted_from(s, e)
    }
}

/// X's weighted length of a post text: URLs count 23, other non-ASCII
/// characters 2, everything else (whitespace included) 1.
pub open spec fn spec_x_weighted_length(s: Seq<char>) -> nat {
    spec_weighted_from(s, 0)
}

proof fn lemma_char_weights_bound(t: Seq<char>)
    ensures
        spec_char_weights(t) <= 2 * t.len(),
    decreases t.len(),
{
    if t.len() > 0 {
        lemma_char_weights_bound(t.drop_first());
    }
}

proof fn lemma_weighted_bound(s: Seq<char>, i: int)
    requires
        0 <= i <= s.len(),
    ensures
        spec_weighted_from(s, i) <= 23 * (s.len() - i),
    decreases s.len() - i,
{
    if i < s.len() {
        if spec_is_whitespace(s[i]) {
            lemma_weighted_bound(s, i + 1);
        } else {
            let e = spec_token_end(s, i);
            lemma_token_end_bounds(s, i);
            lemma_weighted_bound(s, e);
            lemma_char_weights_bound(s.subrange(i, e));
        }
    }
}

fn char_weights(t: &Vec<char>) -> (w: usize)
    requires
        t@.len() <= usize::MAX / 2,
    ensures
        w == spec_char_weights(t@),
{
    let mut w: usize = 0;
    let mut k: usize = t.len();
    while k > 0
        invariant
            t@.len() <= usize::MAX / 2,
            0 <= k <= t@.len(),
            w == spec_char_weights(t@.subrange(k as int, t@.len() as int)),
            w <= 2 * (t@.len() - k),
        decreases k,
    {
        k = k - 1;
        proof {
            let rest = t@.subrange(k as int, t@.len() as int);
            assert(rest.drop_first() =~= t@.subrange(k + 1, t@.len() as int));
        }
        w = w + x_char_weight(t[k]);
    }
    proof {
        assert(t@.subrange(0, t@.len() as int) =~= t@);
    }
    w
}

/// X's weighted length of a post text.
pub fn x_weighted_length(text: &str) -> (n: usize)
    requires
        text@.len() <= usize::MAX / 23,
    ensures
        n == spec_x_weighted_length(text@),
{
    let s = chars_of(text);
    let len = s.len();
    let mut total: usize = 0;
    let mut i: usize = 0;
    proof {
        lemma_weighted_bound(s@, 0);
    }
    while i < len
        invariant
            len == s@.len(),
            s@ == text@,
            len <= usize::MAX / 23,
            0 <= i <= len,
            total + spec_weighted_from(s@, i as int) == spec_x_weighted_length(s@),
            spec_x_weighted_length(s@) <= 23 * len,
        decreases len - i,
    {
        if is_whitespace(s[i]) {
            total = total + 1;
            i = i + 1;
        } else {
            let mut e = i;
            while e < len && !is_whitespace(s[e])
                invariant
                    len == s@.len(),
                    i <= e <= len,
                    forall|k: int| i <= k < e ==> !spec_is_whitespace(s@[k]),
                decreases len - e,
            {
                e = e + 1;
            }
            proof {
                lemma_token_end_bounds(s@, i as int);
                lemma_token_end_exact(s@, i as int, e as int);
                lemma_weighted_bound(s@, e as int);
            }
            let token = slice_chars(&s, i, e);
            let tok = string_from_chars(token.as_slice());
            let w = if looks_like_url(tok.as_str()) {
                23
            } else {
                char_weights(&token)
            };
            total = total + w;
            i = e;
        }
    }
    total
}

proof fn lemma_token_end_exact(s: Seq<char>, i: int, e: int)
    requires
        0 <= i <= e <= s.len(),
        forall|k: int| i <= k < e ==> !spec_is_whitespace(s[k]),
        e == s.len() || spec_is_whitespace(s[e]),
    ensures
        spec_token_end(s, i) == e,
    decreases e - i,
{
    if i < e {
        lemma_token_end_exact(s, i + 1, e);
    }
}

/// A character that may continue a cashtag: an ASCII letter, digit or `_`.
pub open spec fn spec_is_word_char(c: char) -> bool {
    spec_is_ascii_alphanumeric(c) || c == '_'
}

/// An ASCII letter.
pub open spec fn spec_is_ascii_alpha(c: char) -> bool {
    ('a' <= c && c <= 'z') || ('A' <= c && c <= 'Z')
}

/// The end of the run of word characters that starts at `j`.
pub open spec fn spec_word_end(s: Seq<char>, j: int) -> int
    decreases s.len() - j,
{
    if j < 0 || j >= s.len() || !spec_is_word_char(s[j]) {
        j
    } else {
        spec_word_end(s, j + 1)
    }
}

/// The end of the word at `j`: within `s`, word characters before it and
/// none at it.
pub proof fn lemma_word_end(s: Seq<char>, j: int)
    requires
        0 <= j <= s.len(),
    ensures
        j <= spec_word_end(s, j) <= s.len(),
        forall|k: int| j <= k < spec_word_end(s, j) ==> spec_is_word_char(s[k]),
        spec_word_end(s, j) == s.len() || !spec_is_word_char(s[spec_word_end(s, j)]),
    decreases s.len() - j,
{
    if j < s.len() && spec_is_word_char(s[j]) {
        lemma_word_end(s, j + 1);
    }
}

/// The cashtags of `s[i..]`: a `$` not preceded by a word character, followed by
/// an ASCII letter and then any word characters; the tag runs to the end of that
/// run.
pub open spec fn spec_cashtags_from(s: Seq<char>, i: int) -> Seq<Seq<char>>
    decreases s.len() - i,
{
    if i < 0 || i >= s.len() {
        Seq::empty()
    } else if s[i] != '$' || (i > 0 && spec_is_word_char(s[i - 1])) || i + 1 >= s.len()
        || !spec_is_ascii_alpha(s[i + 1]) {
        spec_cashtags_from(s, i + 1)
    } else {
        let j = spec_word_end(s, i + 2);
        proof {
            lemma_word_end(s, i + 2);
        }
        seq![s.subrange(i, j)] + spec_cashtags_from(s, j)
    }
}

/// The cashtags of a text, in order.
pub open spec fn spec_cashtags(s: Seq<char>) -> Seq<Seq<char>> {
    spec_cashtags_from(s, 0)
}

fn is_word_char(c: char) -> (b: bool)
    ensures
        b == spec_is_word_char(c),
{
    is_ascii_alphanumeric(c) || c == '_'
}

/// The cashtags (`$AAPL`) of a text, in order.
pub fn extract_cashtags(text: &str) -> (out: Vec<String>)
    ensures
        spec_string_views(out@) == spec_cashtags(text@),
{
    let chars = chars_of(text);
    let n = chars.len();
    let mut out: Vec<String> = Vec::new();
    let mut i: usize = 0;
    while i < n
        invariant
            n == chars@.len(),
            chars@ == text@,
            0 <= i <= n,
            spec_string_views(out@) + spec_cashtags_from(chars@, i as int) == spec_cashtags(chars@),
        decreases n - i,
    {
        if chars[i] != '$' {
            i = i + 1;
            continue;
        }
        let prev_is_word = if i == 0 {
            false
        } else {
            is_word_char(chars[i - 1])
        };
        if prev_is_word {
            i = i + 1;
            continue;
        }
        let mut j = i + 1;
        if j >= n || !(('a' <= chars[j] && chars[j] <= 'z') || ('A' <= chars[j] && chars[j] <= 'Z')) {
            i = i + 1;
            continue;
        }
        j = j + 1;
        while j < n && is_word_char(chars[j])
            invariant
                n == chars@.len(),
                i + 2 <= j <= n,
                forall|k: int| i + 2 <= k < j ==> spec_is_word_char(chars@[k]),
            decreases n - j,
        {
            j = j + 1;
        }
        proof {
            lemma_word_end(chars@, i + 2);
            lemma_word_end_exact(chars@, i + 2, j as int);
        }
        let next_is_word = if j < n {
            is_word_char(chars[j])
        } else {
            false
        };
        if !next_is_word {
            let tag = slice_chars(&chars, i, j);
            let item = string_from_chars(tag.as_slice());
            let ghost before = out@;
            out.push(item);
            proof {
                lemma_string_views_push(before, item);
                assert(spec_string_views(out@) + spec_cashtags_from(chars@, j as int) =~= spec_string_views(before) + (seq![tag@] + spec_cashtags_from(chars@, j as int)));
            }
        }
        i = j;
    }
    out
}

proof fn lemma_word_end_exact(s: Seq<char>, j: int, e: int)
    requires
        0 <= j <= e <= s.len(),
        forall|k: int| j <= k < e ==> spec_is_word_char(s[k]),
        e == s.len() || !spec_is_word_char(s[e]),
    ensures
        spec_word_end(s, j) == e,
    decreases e - j,
{
    if j < e {
        lemma_word_end_exact(s, j + 1, e);
    }
}

/// X's rule on a post text: the cashtag limit first, then the length limit.
pub open spec fn spec_x_post_text_result(
    r: Result<(), AppError>,
    text: Seq<char>,
    allow_cashtag: bool,
    allow_length: bool,
) -> bool {
    if !allow_cashtag && spec_cashtags(text).len() > 1 {
        r matches Err(e) && is_validation(
            e,
            "X self-serve posting allows max 1 cashtag per post; found "@ + spec_decimal(
                spec_cashtags(text).len(),
            ) + "."@,
            Some(
                "Keep at most one cashtag (for example: $AAPL), or use --allow-cashtag to bypass local check."@,
            ),
            Some("publo publish x --file <path>"@),
        )
    } else if !allow_length && spec_x_weighted_length(text) > 280 {
        r matches Err(e) && is_validation(
            e,
            "X post is too long by weighted count: "@ + spec_decimal(spec_x_weighted_length(text))
                + " > 280."@,
            Some(
                "Shorten text (URLs count as 23 chars; many non-ASCII/emoji chars count as 2), or use --allow-length to bypass local check."@,
            ),
            Some("publo publish x --file <path>"@),
        )
    } else {
        r is Ok
    }
}

/// The highest weighted length X accepts.
pub const X_MAX_WEIGHTED_LENGTH: usize = 280;

/// The rule of X's self-serve API on a post text: at most one cashtag (unless
/// `allow_cashtag`) and a weighted length of at most 280 (unless
/// `allow_length`); the cashtag rule is checked first.
pub fn validate_x_post_text(text: &str, allow_cashtag: bool, allow_length: bool) -> (r: Result<(), AppError>)
    requires
        text@.len() <= usize::MAX / 23,
    ensures
        spec_x_post_text_result(r, text@, allow_cashtag, allow_length),
{
    let cashtags = extract_cashtags(text);
    proof {
        assert(spec_string_views(cashtags@).len() == cashtags@.len());
    }
    if !allow_cashtag && cashtags.len() > 1 {
        let count = decimal(cashtags.len() as u64);
        let message = concat3(
            "X self-serve posting allows max 1 cashtag per post; found ",
            count.as_str(),
            ".",
        );
        return Err(
            validation(
                message,
                Some(
                    "Keep at most one cashtag (for example: $AAPL), or use --allow-cashtag to bypass local check.",
                ),
                Some("publo publish x --file <path>"),
            ),
        );
    }
    let weighted_len = x_weighted_length(text);
    if !allow_length && weighted_len > X_MAX_WEIGHTED_LENGTH {
        let count = decimal(weighted_len as u64);
        let message = concat3("X post is too long by weighted count: ", count.as_str(), " > 280.");
        return Err(
            validation(
                message,
                Some(
                    "Shorten text (URLs count as 23 chars; many non-ASCII/emoji chars count as 2), or use --allow-length to bypass local check.",
                ),
                Some("publo publish x --file <path>"),
            ),
        );
    }
    Ok(())
}

/// The most images one LinkedIn post carries.
pub const LINKEDIN_MAX_IMAGES: usize = 20;

/// The most images one X post carries.
pub const X_MAX_IMAGES: usize = 4;

/// LinkedIn's image limit: at most 20 per post.
pub fn validate_linkedin_media_count(media_count: usize) -> (r: Result<(), AppError>)
    ensures
        r is Ok <==> media_count <= 20,
        media_count > 20 ==> is_validation(
            r->Err_0,
            "LinkedIn multi-image supports at most 20 images; found "@ + spec_decimal(
                media_count as nat,
            ) + "."@,
            Some("Reduce image count to 20 or fewer and retry."@),
            None,
        ),
{
    if media_count > LINKEDIN_MAX_IMAGES {
        let count = decimal(media_count as u64);
        let message = concat3(
            "LinkedIn multi-image supports at most 20 images; found ",
            count.as_str(),
            ".",
        );
        return Err(validation(message, Some("Reduce image count to 20 or fewer and retry."), None));
    }
    Ok(())
}

/// X's image limit: at most 4 per post.
pub fn validate_x_media_count(media_count: usize) -> (r: Result<(), AppError>)
    ensures
        r is Ok <==> media_count <= 4,
        media_count > 4 ==> is_validation(
            r->Err_0,
            "X supports at most 4 images per post; found "@ + spec_decimal(media_count as nat)
                + "."@,
            Some("Reduce image count to 4 or fewer and retry."@),
            None,
        ),
{
    if media_count > X_MAX_IMAGES {
        let count = decimal(media_count as u64);
        let message = concat3("X supports at most 4 images per post; found ", count.as_str(), ".");
        return Err(validation(message, Some("Reduce image count to 4 or fewer and retry."), None));
    }
    Ok(())
}

/// The lower-cased extension of a path, empty when it has none.
pub open spec fn spec_lower_extension(p: Seq<char>) -> Seq<char> {
    spec_ascii_lowercase(
        match spec_path_extension(p) {
            Some(e) => e,
            None => Seq::empty(),
        },
    )
}

/// The lower-cased extension of a path, empty when it has none.
pub fn lower_extension(p: &str) -> (e: String)
    ensures
        e@ == spec_lower_extension(p@),
{
    let ext = match path_extension(p) {
        Some(e) => e,
        None => String::new(),
    };
    crate::text::ascii_lowercase(ext.as_str())
}

/// Publishable images are `.png`, `.jpg` and `.jpeg` files, in any case.
pub open spec fn spec_has_allowed_media_extension(p: Seq<char>) -> bool {
    let e = spec_lower_extension(p);
    e == "png"@ || e == "jpg"@ || e == "jpeg"@
}

/// Whether a path names a publishable image.
pub fn has_allowed_media_extension(path: &str) -> (b: bool)
    ensures
        b == spec_has_allowed_media_extension(path@),
{
    let e = lower_extension(path);
    crate::chars::str_eq(e.as_str(), "png") || crate::chars::str_eq(e.as_str(), "jpg")
        || crate::chars::str_eq(e.as_str(), "jpeg")
}

/// Where a note's media reference is looked for, in order: an absolute
/// reference as given; otherwise the note's folder, then each lookup path.
pub open spec fn spec_media_candidates(
    note_path: Seq<char>,
    ref_path: Seq<char>,
    lookups: Seq<Seq<char>>,
) -> Seq<Seq<char>> {
    if spec_path_is_absolute(ref_path) {
        seq![ref_path]
    } else {
        let note_dir = match spec_path_parent(note_path) {
            Some(d) => d,
            None => "."@,
        };
        seq![spec_path_join(note_dir, ref_path)] + lookups.map_values(
            |base: Seq<char>| spec_path_join(base, ref_path),
        )
    }
}

/// The places a media reference is looked for, in order.
pub fn media_candidates(note_path: &str, ref_path: &str, media_lookup_paths: &Vec<String>) -> (c: Vec<String>)
    ensures
        spec_string_views(c@) == spec_media_candidates(
            note_path@,
            ref_path@,
            spec_string_views(media_lookup_paths@),
        ),
{
    let mut c: Vec<String> = Vec::new();
    if path_is_absolute(ref_path) {
        c.push(ref_path.to_owned());
        proof {
            assert(spec_string_views(c@) =~= seq![ref_path@]);
        }
        return c;
    }
    let note_dir = match path_parent(note_path) {
        Some(d) => d,
        None => ".".to_owned(),
    };
    c.push(path_join(note_dir.as_str(), ref_path));
    let ghost lookups = spec_string_views(media_lookup_paths@);
    let mut i: usize = 0;
    while i < media_lookup_paths.len()
        invariant
            0 <= i <= media_lookup_paths@.len(),
            lookups == spec_string_views(media_lookup_paths@),
            spec_string_views(c@) == seq![spec_path_join(note_dir@, ref_path@)]
                + lookups.subrange(0, i as int).map_values(
                |base: Seq<char>| spec_path_join(base, ref_path@),
            ),
        decreases media_lookup_paths.len() - i,
    {
        let ghost before = c@;
        let item = path_join(media_lookup_paths[i].as_str(), ref_path);
        c.push(item);
        proof {
            lemma_string_views_push(before, item);
            assert(lookups.subrange(0, i + 1).map_values(|base: Seq<char>| spec_path_join(base, ref_path@))
                =~= lookups.subrange(0, i as int).map_values(|base: Seq<char>| spec_path_join(base, ref_path@)).push(spec_path_join(lookups[i as int], ref_path@)));
        }
        i = i + 1;
    }
    proof {
        assert(lookups.subrange(0, lookups.len() as int) =~= lookups);
    }
    c
}

/// The first of `candidates` that lies in `existing`.
pub open spec fn spec_first_existing(candidates: Seq<Seq<char>>, existing: Seq<Seq<char>>) -> Option<Seq<char>>
    decreases candidates.len(),
{
    if candidates.len() == 0 {
        None
    } else if existing.contains(candidates[0]) {
        Some(candidates[0])
    } else {
        spec_first_existing(candidates.drop_first(), existing)
    }
}

fn contains_string(items: &Vec<String>, x: &str) -> (b: bool)
    ensures
        b == spec_string_views(items@).contains(x@),
{
    let mut i: usize = 0;
    while i < items.len()
        invariant
            0 <= i <= items@.len(),
            forall|k: int| 0 <= k < i ==> items@[k]@ != x@,
        decreases items.len() - i,
    {
        if crate::chars::str_eq(items[i].as_str(), x) {
            proof {
                assert(spec_string_views(items@)[i as int] == x@);
            }
            return true;
        }
        i = i + 1;
    }
    proof {
        if spec_string_views(items@).contains(x@) {
            let k = choose|k: int| 0 <= k < spec_string_views(items@).len() && spec_string_views(items@)[k] == x@;
            assert(items@[k]@ == x@);
        }
    }
    false
}

/// The file a media reference resolves to: the first place it is looked for
/// that `existing_files` (the paths known to be files) holds.
pub fn resolve_existing_media_path(
    note_path: &str,
    ref_path: &str,
    media_lookup_paths: &Vec<String>,
    existing_files: &Vec<String>,
) -> (r: Option<String>)
    ensures
        opt_view(r) == spec_first_existing(
            spec_media_candidates(note_path@, ref_path@, spec_string_views(media_lookup_paths@)),
            spec_string_views(existing_files@),
        ),
{
    let candidates = media_candidates(note_path, ref_path, media_lookup_paths);
    let ghost cs = spec_string_views(candidates@);
    let ghost ex = spec_string_views(existing_files@);
    proof {
        assert(cs.subrange(0, cs.len() as int) =~= cs);
    }
    let mut i: usize = 0;
    while i < candidates.len()
        invariant
            0 <= i <= candidates@.len(),
            cs == spec_string_views(candidates@),
            cs == spec_media_candidates(note_path@, ref_path@, spec_string_views(media_lookup_paths@)),
            ex == spec_string_views(existing_files@),
            spec_first_existing(cs.subrange(i as int, cs.len() as int), ex) == spec_first_existing(cs, ex),
        decreases candidates.len() - i,
    {
        let ghost rest = cs.subrange(i as int, cs.len() as int);
        proof {
            assert(rest[0] == candidates@[i as int]@);
            assert(rest.drop_first() =~= cs.subrange(i + 1, cs.len() as int));
        }
        if contains_string(existing_files, candidates[i].as_str()) {
            let found = candidates[i].clone();
            proof {
                assert(cs.len() == candidates@.len());
                assert(rest.len() > 0);
                assert(ex.contains(rest[0]));
                assert(spec_first_existing(rest, ex) == Some(rest[0]));
            }
            return Some(found);
        }
        i = i + 1;
    }
    None
}

/// The view of an optional string.
pub open spec fn opt_view(o: Option<String>) -> Option<Seq<char>> {
    match o {
        Some(s) => Some(s@),
        None => None,
    }
}

} // verus!
