//! The Obsidian-friendly note contract: publish text is what follows the last
//! `---` line, with `![[...]]` embeds removed and the outer whitespace trimmed;
//! the embeds, read from the whole file, name the media to attach.
use vstd::prelude::*;

use crate::chars::{chars_of, string_from_chars};
use crate::text::{
    find_from, is_whitespace, lemma_find_from_bounds, lemma_find_from_none, lemma_find_from_some,
    lemma_trim_idempotent, push_chars, slice_chars, spec_find_from, spec_matches_at, spec_trim, spec_trim_end,
    spec_trim_start, trim_chars,
};

verus! {

/// `---`, the separator line (once trimmed).
pub open spec fn spec_separator() -> Seq<char> {
    seq!['-', '-', '-']
}

/// A line (with its line break) is a separator line when it trims to `---`.
pub open spec fn spec_is_separator_line(line: Seq<char>) -> bool {
    spec_trim(line) == spec_separator()
}

/// Scans the lines of `s` (each ending after its `\n`, the last one possibly
/// without one) from position `i`, where the current line began at `line_start`,
/// and returns the end of the last separator line, or `last` if none follows.
pub open spec fn spec_last_separator_end_from(
    s: Seq<char>,
    line_start: int,
    i: int,
    last: Option<int>,
) -> Option<int>
    decreases s.len() - i,
{
    if i < 0 || line_start < 0 || line_start > i || i >= s.len() {
        if 0 <= line_start < s.len() && spec_is_separator_line(s.subrange(line_start, s.len() as int)) {
            Some(s.len() as int)
        } else {
            last
        }
    } else if s[i] == '\n' {
        let next = if spec_is_separator_line(s.subrange(line_start, i + 1)) {
            Some(i + 1)
        } else {
            last
        };
        spec_last_separator_end_from(s, i + 1, i + 1, next)
    } else {
        spec_last_separator_end_from(s, line_start, i + 1, last)
    }
}

/// The end of the last separator line of `s`, if `s` has one.
pub open spec fn spec_last_separator_end(s: Seq<char>) -> Option<int> {
    spec_last_separator_end_from(s, 0, 0, None)
}

/// The publish section: everything after the last separator line, or all of `s`.
pub open spec fn spec_publish_section(s: Seq<char>) -> Seq<char> {
    match spec_last_separator_end(s) {
        Some(e) => s.subrange(e, s.len() as int),
        None => s,
    }
}

pub open spec fn spec_ends_separator_line(s: Seq<char>, e: int) -> bool {
    exists|b: int|
        0 <= b < e <= s.len() && spec_is_separator_line(#[trigger] s.subrange(b, e)) && (e
            == s.len() || s[e - 1] == '\n')
}

proof fn lemma_last_separator_end_is_separator(
    s: Seq<char>,
    line_start: int,
    i: int,
    last: Option<int>,
)
    requires
        0 <= line_start <= i <= s.len(),
        last matches Some(e) ==> spec_ends_separator_line(s, e),
    ensures
        spec_last_separator_end_from(s, line_start, i, last) matches Some(e)
            ==> spec_ends_separator_line(s, e),
    decreases s.len() - i,
{
    if i < s.len() {
        if s[i] == '\n' {
            let line = s.subrange(line_start, i + 1);
            if spec_is_separator_line(line) {
                assert(spec_ends_separator_line(s, i + 1));
                lemma_last_separator_end_is_separator(s, i + 1, i + 1, Some(i + 1));
            } else {
                lemma_last_separator_end_is_separator(s, i + 1, i + 1, last);
            }
        } else {
            lemma_last_separator_end_is_separator(s, line_start, i + 1, last);
        }
    } else {
        if 0 <= line_start < s.len() && spec_is_separator_line(
            s.subrange(line_start, s.len() as int),
        ) {
            assert(spec_ends_separator_line(s, s.len() as int));
        }
    }
}

fn is_separator_line(s: &Vec<char>, from: usize, to: usize) -> (b: bool)
    requires
        from <= to <= s@.len(),
    ensures
        b == spec_is_separator_line(s@.subrange(from as int, to as int)),
{
    let line = slice_chars(s, from, to);
    let t = trim_chars(&line);
    if t.len() == 3 && t[0] == '-' && t[1] == '-' && t[2] == '-' {
        proof {
            assert(t@ =~= spec_separator());
        }
        true
    } else {
        proof {
            if t@ == spec_separator() {
                assert(t@[0] == '-' && t@[1] == '-' && t@[2] == '-');
            }
        }
        false
    }
}

/// The end of the last separator line of `s`, if any.
pub fn last_separator_end(s: &Vec<char>) -> (r: Option<usize>)
    ensures
        match r {
            Some(e) => spec_last_separator_end(s@) == Some(e as int),
            None => spec_last_separator_end(s@) is None,
        },
{
    let n = s.len();
    let mut line_start: usize = 0;
    let mut last: Option<usize> = None;
    let mut i: usize = 0;
    while i < n
        invariant
            n == s@.len(),
            0 <= line_start <= i <= n,
            last matches Some(e) ==> e <= n,
            spec_last_separator_end_from(s@, line_start as int, i as int, match last {
                Some(e) => Some(e as int),
                None => None,
            }) == spec_last_separator_end(s@),
        decreases n - i,
    {
        if s[i] == '\n' {
            if is_separator_line(s, line_start, i + 1) {
                last = Some(i + 1);
            }
            line_start = i + 1;
        }
        i = i + 1;
    }
    if line_start < n && is_separator_line(s, line_start, n) {
        last = Some(n);
    }
    last
}

/// `extract_publish_section_after_last_separator` on characters.
pub fn publish_section_chars(s: &Vec<char>) -> (t: Vec<char>)
    ensures
        t@ == spec_publish_section(s@),
{
    match last_separator_end(s) {
        Some(e) => {
            proof {
                lemma_last_separator_end_is_separator(s@, 0, 0, None);
            }
            slice_chars(s, e, s.len())
        },
        None => {
            let t = slice_chars(s, 0, s.len());
            proof {
                assert(t@ =~= s@);
            }
            t
        },
    }
}

/// The text that follows the last `---` line of a note, or the whole note when
/// it has no such line.
pub fn extract_publish_section_after_last_separator(raw: &str) -> (t: String)
    ensures
        t@ == spec_publish_section(raw@),
        spec_last_separator_end(raw@) matches Some(e) ==> spec_ends_separator_line(raw@, e)
            && t@ == raw@.subrange(e, raw@.len() as int),
        spec_last_separator_end(raw@) is None ==> t@ == raw@,
{
    let v = chars_of(raw);
    let r = publish_section_chars(&v);
    proof {
        lemma_last_separator_end_is_separator(raw@, 0, 0, None);
    }
    string_from_chars(r.as_slice())
}

/// `![[`, the opening of an Obsidian embed.
pub open spec fn spec_embed_open() -> Seq<char> {
    seq!['!', '[', '[']
}

/// `]]`, the closing of an Obsidian embed.
pub open spec fn spec_embed_close() -> Seq<char> {
    seq![']', ']']
}

/// `s[start..]` with every complete `![[...]]` embed removed; an unclosed `![[`
/// and what follows it are kept.
pub open spec fn spec_remove_embeds_from(s: Seq<char>, start: int) -> Seq<char>
    decreases s.len() + 1 - start,
{
    if start < 0 || start > s.len() {
        Seq::empty()
    } else {
        match spec_find_from(s, spec_embed_open(), start) {
            None => s.subrange(start, s.len() as int),
            Some(open) => match spec_find_from(s, spec_embed_close(), open + 3) {
                None => s.subrange(start, s.len() as int),
                Some(close) => {
                    proof {
                        lemma_find_from_bounds(s, spec_embed_open(), start);
                        lemma_find_from_bounds(s, spec_embed_close(), open + 3);
                    }
                    s.subrange(start, open) + spec_remove_embeds_from(s, close + 2)
                },
            },
        }
    }
}

/// `s` with every complete `![[...]]` embed removed.
pub open spec fn spec_remove_embeds(s: Seq<char>) -> Seq<char> {
    spec_remove_embeds_from(s, 0)
}

proof fn lemma_matches_at_shift(q: Seq<char>, b: Seq<char>, p: Seq<char>, i: int)
    requires
        0 <= i,
    ensures
        spec_matches_at(q + b, p, q.len() + i) == spec_matches_at(b, p, i),
{
    let s = q + b;
    if i + p.len() <= b.len() {
        assert(s.subrange(q.len() + i, q.len() + i + p.len()) =~= b.subrange(i, i + p.len()));
    }
}

proof fn lemma_find_from_shift(q: Seq<char>, b: Seq<char>, p: Seq<char>, j: int)
    requires
        0 <= j,
    ensures
        spec_find_from(q + b, p, q.len() + j) == match spec_find_from(b, p, j) {
            Some(i) => Some(i + q.len()),
            None => None,
        },
    decreases b.len() + 1 - j,
{
    lemma_matches_at_shift(q, b, p, j);
    if j + p.len() <= b.len() && !spec_matches_at(b, p, j) {
        lemma_find_from_shift(q, b, p, j + 1);
    }
}

proof fn lemma_remove_embeds_shift(q: Seq<char>, b: Seq<char>, j: int)
    requires
        0 <= j <= b.len(),
    ensures
        spec_remove_embeds_from(q + b, q.len() + j) == spec_remove_embeds_from(b, j),
    decreases b.len() + 1 - j,
{
    let s = q + b;
    let off = q.len() as int;
    lemma_find_from_shift(q, b, spec_embed_open(), j);
    lemma_find_from_bounds(b, spec_embed_open(), j);
    match spec_find_from(b, spec_embed_open(), j) {
        None => {
            assert(s.subrange(off + j, s.len() as int) =~= b.subrange(j, b.len() as int));
        },
        Some(open) => {
            lemma_find_from_shift(q, b, spec_embed_close(), open + 3);
            lemma_find_from_bounds(b, spec_embed_close(), open + 3);
            match spec_find_from(b, spec_embed_close(), open + 3) {
                None => {
                    assert(s.subrange(off + j, s.len() as int) =~= b.subrange(j, b.len() as int));
                },
                Some(close) => {
                    assert(s.subrange(off + j, off + open) =~= b.subrange(j, open));
                    lemma_remove_embeds_shift(q, b, close + 2);
                },
            }
        },
    }
}

/// Every complete embed is removed, not only the first: for a text `a` that
/// holds no `![[`, an embed `![[x]]` whose reference `x` holds no `]]` and
/// does not end with `]`, and any rest `b`, removing the embeds of
/// `a + "![[" + x + "]]" + b` keeps `a` and goes on with the rest, whose
/// embeds are removed in turn; and a text holding no `![[` is kept whole.
pub proof fn lemma_remove_embeds_each(a: Seq<char>, x: Seq<char>, b: Seq<char>)
    requires
        forall|i: int| 0 <= i ==> !spec_matches_at(a, seq!['!', '[', '['], i),
        forall|i: int| 0 <= i ==> !spec_matches_at(x, seq![']', ']'], i),
        x.len() == 0 || x.last() != ']',
    ensures
        spec_remove_embeds(a + seq!['!', '[', '['] + x + seq![']', ']'] + b) == a + spec_remove_embeds(b),
        spec_remove_embeds(a) == a,
{
    let open = spec_embed_open();
    let close = spec_embed_close();
    let q = a + open + x + close;
    let s = q + b;
    let la = a.len() as int;
    let c = la + 3 + x.len();
    assert(s == a + open + x + close + b);
    // the first `![[` is the one after `a`
    assert forall|i: int| 0 <= i < la implies !spec_matches_at(s, open, i) by {
        if i + 3 <= la {
            assert(s.subrange(i, i + 3) =~= a.subrange(i, i + 3));
            assert(!spec_matches_at(a, open, i));
        } else {
            assert(s[la] == '!');
            if spec_matches_at(s, open, i) {
                assert(s.subrange(i, i + 3)[la - i] == open[la - i]);
            }
        }
    }
    assert(s.subrange(la, la + 3) =~= open);
    lemma_find_from_some(s, open, 0, la);
    // the first `]]` after it closes the embed
    assert forall|i: int| la + 3 <= i < c implies !spec_matches_at(s, close, i) by {
        if i + 2 <= c {
            assert(s.subrange(i, i + 2) =~= x.subrange(i - la - 3, i - la - 1));
            assert(!spec_matches_at(x, close, i - la - 3));
        } else {
            assert(s[i] == x.last());
            if spec_matches_at(s, close, i) {
                assert(s.subrange(i, i + 2)[0] == close[0]);
            }
        }
    }
    assert(s.subrange(c, c + 2) =~= close);
    lemma_find_from_some(s, close, la + 3, c);
    assert(s.subrange(0, la) =~= a);
    assert(q.len() == c + 2);
    lemma_remove_embeds_shift(q, b, 0);
    assert(spec_remove_embeds_from(s, 0) == a + spec_remove_embeds_from(s, c + 2));
    // a text without `![[` is kept
    assert forall|i: int| 0 <= i && i + open.len() <= a.len() implies !spec_matches_at(a, open, i) by {}
    lemma_find_from_none(a, open, 0);
    assert(a.subrange(0, a.len() as int) =~= a);
}

fn embed_open() -> (v: Vec<char>)
    ensures
        v@ == spec_embed_open(),
{
    let mut v: Vec<char> = Vec::new();
    v.push('!');
    v.push('[');
    v.push('[');
    proof {
        assert(v@ =~= spec_embed_open());
    }
    v
}

fn embed_close() -> (v: Vec<char>)
    ensures
        v@ == spec_embed_close(),
{
    let mut v: Vec<char> = Vec::new();
    v.push(']');
    v.push(']');
    proof {
        assert(v@ =~= spec_embed_close());
    }
    v
}

/// Removes the embeds from `s`.
pub fn remove_embeds_chars(s: &Vec<char>) -> (t: Vec<char>)
    ensures
        t@ == spec_remove_embeds(s@),
{
    let open_pat = embed_open();
    let close_pat = embed_close();
    let n = s.len();
    let mut out: Vec<char> = Vec::new();
    let mut start: usize = 0;
    loop
        invariant
            n == s@.len(),
            open_pat@ == spec_embed_open(),
            close_pat@ == spec_embed_close(),
            0 <= start <= n,
            out@ + spec_remove_embeds_from(s@, start as int) == spec_remove_embeds(s@),
        decreases n - start,
    {
        match find_from(s, &open_pat, start) {
            None => {
                let rest = slice_chars(s, start, n);
                push_chars(&mut out, &rest);
                return out;
            },
            Some(open) => {
                proof {
                    lemma_find_from_bounds(s@, spec_embed_open(), start as int);
                }
                match find_from(s, &close_pat, open + 3) {
                    None => {
                        let rest = slice_chars(s, start, n);
                        push_chars(&mut out, &rest);
                        return out;
                    },
                    Some(close) => {
                        proof {
                            lemma_find_from_bounds(s@, spec_embed_close(), open + 3);
                        }
                        let kept = slice_chars(s, start, open);
                        let ghost before = out@;
                        push_chars(&mut out, &kept);
                        proof {
                            assert(before + spec_remove_embeds_from(s@, start as int) == before
                                + (kept@ + spec_remove_embeds_from(s@, close + 2)));
                            assert(out@ + spec_remove_embeds_from(s@, close + 2) =~= before + (
                            kept@ + spec_remove_embeds_from(s@, close + 2)));
                        }
                        start = close + 2;
                    },
                }
            },
        }
    }
}

/// Removes every complete `![[...]]` embed from `raw`.
pub fn remove_obsidian_embed_placeholders(raw: &str) -> (t: String)
    ensures
        t@ == spec_remove_embeds(raw@),
{
    let v = chars_of(raw);
    let r = remove_embeds_chars(&v);
    string_from_chars(r.as_slice())
}

/// The part of `x` before the first `c` (the first item of `str::split(c)`).
pub open spec fn spec_before_char(x: Seq<char>, c: char) -> Seq<char> {
    match spec_find_from(x, seq![c], 0) {
        Some(i) => x.subrange(0, i),
        None => x,
    }
}

/// The media name an embed's (trimmed) inner text refers to: without an alias
/// after `|` or a heading after `#`, trimmed.
pub open spec fn spec_embed_reference(inner: Seq<char>) -> Seq<char> {
    spec_trim(spec_before_char(spec_before_char(inner, '|'), '#'))
}

/// The media references of the complete embeds of `s[start..]`, in order.
pub open spec fn spec_embeds_from(s: Seq<char>, start: int) -> Seq<Seq<char>>
    decreases s.len() + 1 - start,
{
    if start < 0 || start > s.len() {
        Seq::empty()
    } else {
        match spec_find_from(s, spec_embed_open(), start) {
            None => Seq::empty(),
            Some(open) => match spec_find_from(s, spec_embed_close(), open + 3) {
                None => Seq::empty(),
                Some(close) => {
                    proof {
                        lemma_find_from_bounds(s, spec_embed_open(), start);
                        lemma_find_from_bounds(s, spec_embed_close(), open + 3);
                    }
                    let inner = spec_trim(s.subrange(open + 3, close));
                    let cleaned = spec_embed_reference(inner);
                    let rest = spec_embeds_from(s, close + 2);
                    if inner.len() > 0 && cleaned.len() > 0 {
                        seq![cleaned] + rest
                    } else {
                        rest
                    }
                },
            },
        }
    }
}

/// The media references of all complete embeds of `s`, in order.
pub open spec fn spec_embeds(s: Seq<char>) -> Seq<Seq<char>> {
    spec_embeds_from(s, 0)
}

fn before_char(x: &Vec<char>, c: char) -> (t: Vec<char>)
    ensures
        t@ == spec_before_char(x@, c),
{
    let mut pat: Vec<char> = Vec::new();
    pat.push(c);
    proof {
        assert(pat@ =~= seq![c]);
    }
    match find_from(x, &pat, 0) {
        Some(i) => {
            proof {
                lemma_find_from_bounds(x@, seq![c], 0);
            }
            slice_chars(x, 0, i)
        },
        None => slice_chars_all(x),
    }
}

fn slice_chars_all(x: &Vec<char>) -> (t: Vec<char>)
    ensures
        t@ == x@,
{
    let t = slice_chars(x, 0, x.len());
    proof {
        assert(t@ =~= x@);
    }
    t
}

/// The views of a list of strings.
pub open spec fn spec_string_views(v: Seq<String>) -> Seq<Seq<char>> {
    v.map_values(|t: String| t@)
}

/// Pushing a string pushes its view.
pub proof fn lemma_string_views_push(v: Seq<String>, x: String)
    ensures
        spec_string_views(v.push(x)) == spec_string_views(v).push(x@),
{
    assert(spec_string_views(v.push(x)) =~= spec_string_views(v).push(x@));
}

/// The media references of the `![[...]]` embeds of a note, in order.
pub fn extract_obsidian_embeds(raw: &str) -> (out: Vec<String>)
    ensures
        spec_string_views(out@) == spec_embeds(raw@),
{
    let s = chars_of(raw);
    let open_pat = embed_open();
    let close_pat = embed_close();
    let n = s.len();
    let mut out: Vec<String> = Vec::new();
    let mut start: usize = 0;
    loop
        invariant
            n == s@.len(),
            s@ == raw@,
            open_pat@ == spec_embed_open(),
            close_pat@ == spec_embed_close(),
            0 <= start <= n,
            spec_string_views(out@) + spec_embeds_from(s@, start as int) == spec_embeds(s@),
        decreases n - start,
    {
        match find_from(&s, &open_pat, start) {
            None => {
                proof {
                    assert(spec_string_views(out@) + Seq::<Seq<char>>::empty() =~= spec_string_views(out@));
                }
                return out;
            },
            Some(o) => {
                proof {
                    lemma_find_from_bounds(s@, spec_embed_open(), start as int);
                }
                let open = o + 3;
                match find_from(&s, &close_pat, open) {
                    None => {
                        proof {
                            assert(spec_string_views(out@) + Seq::<Seq<char>>::empty() =~= spec_string_views(out@));
                        }
                        return out;
                    },
                    Some(close) => {
                        proof {
                            lemma_find_from_bounds(s@, spec_embed_close(), open as int);
                        }
                        let raw_inner = slice_chars(&s, open, close);
                        let inner = trim_chars(&raw_inner);
                        let ghost before = spec_string_views(out@);
                        let ghost unfolded = spec_embeds_from(s@, start as int);
                        proof {
                            assert(inner@ == spec_trim(s@.subrange(open as int, close as int)));
                        }
                        if inner.len() > 0 {
                            let a = before_char(&inner, '|');
                            let b = before_char(&a, '#');
                            let cleaned = trim_chars(&b);
                            proof {
                                assert(cleaned@ == spec_embed_reference(inner@));
                            }
                            if cleaned.len() > 0 {
                                let item = string_from_chars(cleaned.as_slice());
                                let ghost old_out = out@;
                                out.push(item);
                                proof {
                                    lemma_string_views_push(old_out, item);
                                    assert(spec_string_views(out@) =~= before + seq![cleaned@]);
                                    assert(before + spec_embeds_from(s@, start as int) == before + (
                                    seq![cleaned@] + spec_embeds_from(s@, close + 2)));
                                    assert(spec_string_views(out@) + spec_embeds_from(s@, close + 2)
                                        =~= before + (seq![cleaned@] + spec_embeds_from(s@, close + 2)));
                                }
                            }
                        }
                        start = close + 2;
                    },
                }
            },
        }
    }
}

/// `str::trim`: the publish text keeps no outer whitespace.
pub fn trim_outer_empty_lines(raw: &str) -> (t: String)
    ensures
        t@ == spec_trim(raw@),
{
    crate::text::trim(raw)
}

/// The publish text of a note: the section after the last separator line,
/// without embeds, trimmed.
pub open spec fn spec_publish_text(raw: Seq<char>) -> Seq<char> {
    spec_trim(spec_remove_embeds(spec_publish_section(raw)))
}

/// Scanning up to a line start: from any position before a line break at
/// `j - 1`, the scan goes on from `j` as a new line, with some last end found.
proof fn lemma_scan_to_line_start(s: Seq<char>, line_start: int, i: int, last: Option<int>, j: int) -> (l: Option<int>)
    requires
        0 <= line_start <= i < j <= s.len(),
        s[j - 1] == '\n',
    ensures
        spec_last_separator_end_from(s, line_start, i, last) == spec_last_separator_end_from(s, j, j, l),
    decreases j - i,
{
    if s[i] == '\n' {
        let next = if spec_is_separator_line(s.subrange(line_start, i + 1)) {
            Some(i + 1)
        } else {
            last
        };
        if i + 1 == j {
            next
        } else {
            lemma_scan_to_line_start(s, i + 1, i + 1, next, j)
        }
    } else {
        lemma_scan_to_line_start(s, line_start, i + 1, last, j)
    }
}

/// The scan of `q + r` past `q` is the scan of `r`, its ends moved by the
/// length of `q`, with `found` in place of nothing found.
proof fn lemma_scan_shift(q: Seq<char>, r: Seq<char>, line_start: int, i: int, last: Option<int>, found: Option<int>)
    requires
        0 <= line_start <= i <= r.len(),
    ensures
        spec_last_separator_end_from(q + r, q.len() + line_start, q.len() + i, match last {
            Some(e) => Some(e + q.len()),
            None => found,
        }) == match spec_last_separator_end_from(r, line_start, i, last) {
            Some(e) => Some(e + q.len()),
            None => found,
        },
    decreases r.len() - i,
{
    let s = q + r;
    let off = q.len() as int;
    if i >= r.len() {
        assert(s.subrange(off + line_start, s.len() as int) =~= r.subrange(line_start, r.len() as int));
    } else {
        assert(s[off + i] == r[i]);
        if r[i] == '\n' {
            assert(s.subrange(off + line_start, off + i + 1) =~= r.subrange(line_start, i + 1));
            let next = if spec_is_separator_line(r.subrange(line_start, i + 1)) {
                Some(i + 1)
            } else {
                last
            };
            lemma_scan_shift(q, r, i + 1, i + 1, next, found);
        } else {
            lemma_scan_shift(q, r, line_start, i + 1, last, found);
        }
    }
}

/// The laws of the note contract. The publish text is its own trim. A note
/// whose last separator line is a `---` line in front of a body with no
/// separator line (what the scan of the body finds) publishes that body,
/// whatever came before the line: the body's text with its embeds removed,
/// trimmed.
pub proof fn lemma_publish_text_laws(raw: Seq<char>, prefix: Seq<char>, body: Seq<char>)
    requires
        prefix.len() == 0 || prefix.last() == '\n',
        spec_last_separator_end(body) is None,
    ensures
        spec_trim(spec_publish_text(raw)) == spec_publish_text(raw),
        spec_publish_text(prefix + "---\n"@ + body) == spec_publish_text(body),
        spec_publish_text(body) == spec_trim(spec_remove_embeds(body)),
{
    lemma_trim_idempotent(spec_remove_embeds(spec_publish_section(raw)));
    reveal_strlit("---\n");
    let line = "---\n"@;
    let q = prefix + line;
    let s = q + body;
    assert(prefix + line + body == s);
    let k = prefix.len() as int;
    assert(line.len() == 4);
    assert(q.subrange(k, k + 4) =~= line);
    assert(s.subrange(k, k + 4) =~= line);
    assert(spec_trim_start(line) == line);
    assert(spec_trim_end(line.drop_last()) == line.drop_last());
    assert(spec_trim_end(line) == line.drop_last());
    assert(line.drop_last() =~= spec_separator());
    assert(spec_is_separator_line(line));
    let l0 = if k > 0 {
        assert(s[k - 1] == '\n');
        lemma_scan_to_line_start(s, 0, 0, None, k)
    } else {
        None
    };
    assert(spec_last_separator_end_from(s, 0, 0, None) == spec_last_separator_end_from(s, k, k, l0));
    assert(s[k] == '-' && s[k + 1] == '-' && s[k + 2] == '-' && s[k + 3] == '\n');
    assert(spec_last_separator_end_from(s, k, k + 2, l0) == spec_last_separator_end_from(s, k, k + 3, l0));
    assert(spec_last_separator_end_from(s, k, k + 1, l0) == spec_last_separator_end_from(s, k, k + 2, l0));
    assert(spec_last_separator_end_from(s, k, k, l0) == spec_last_separator_end_from(s, k, k + 1, l0));
    assert(spec_last_separator_end_from(s, k, k + 3, l0) == spec_last_separator_end_from(s, k + 4, k + 4, Some(k + 4)));
    lemma_scan_shift(q, body, 0, 0, None, Some(k + 4));
    assert(q.len() == k + 4);
    assert(spec_last_separator_end(s) == Some(k + 4));
    assert(s.subrange(k + 4, s.len() as int) =~= body);
    assert(spec_publish_section(body) == body);
}

/// The text a note publishes.
pub fn extract_publish_text(raw: &str) -> (t: String)
    ensures
        t@ == spec_publish_text(raw@),
{
    let v = chars_of(raw);
    let section = publish_section_chars(&v);
    let without = remove_embeds_chars(&section);
    let trimmed = trim_chars(&without);
    string_from_chars(trimmed.as_slice())
}

} // verus!
