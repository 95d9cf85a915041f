//! Line-oriented text: splitting into lines as `str::lines` does, joining
//! lines with a separator, and replacing every occurrence of a pattern.
use vstd::prelude::*;

use crate::chars::{chars_of, string_from_chars};
use crate::note::{lemma_string_views_push, spec_string_views};
use crate::text::{matches_at, push_chars, push_str, slice_chars, spec_matches_at};

verus! {

/// The end of the line that starts at `i`: the first `'\n'` at or after `i`,
/// or the end of `s`.
pub open spec fn spec_line_end(s: Seq<char>, i: int) -> int
    decreases s.len() - i,
{
    if i >= s.len() {
        s.len() as int
    } else if s[i] == '\n' {
        i
    } else {
        spec_line_end(s, i + 1)
    }
}

/// The end of the line at `i`: within `s`, at a newline or the end, with
/// no newline before it.
pub proof fn lemma_line_end_bounds(s: Seq<char>, i: int)
    requires
        0 <= i,
    ensures
        i <= s.len() ==> i <= spec_line_end(s, i) <= s.len(),
        spec_line_end(s, i) < s.len() ==> s[spec_line_end(s, i)] == '\n',
        forall|j: int| i <= j < spec_line_end(s, i) ==> s[j] != '\n',
    decreases s.len() - i,
{
    if i < s.len() && s[i] != '\n' {
        lemma_line_end_bounds(s, i + 1);
    }
}

/// A line as `str::lines` yields it: a `'\r'` before the ending `'\n'` is dropped.
pub open spec fn spec_line_text(s: Seq<char>, i: int) -> Seq<char> {
    let e = spec_line_end(s, i);
    if e < s.len() && e > i && s[e - 1] == '\r' {
        s.subrange(i, e - 1)
    } else {
        s.subrange(i, e)
    }
}

/// The lines of `s` from position `i` on.
pub open spec fn spec_lines_from(s: Seq<char>, i: int) -> Seq<Seq<char>>
    decreases s.len() + 1 - i,
{
    if i < 0 || i >= s.len() {
        seq![]
    } else {
        proof {
            lemma_line_end_bounds(s, i);
        }
        seq![spec_line_text(s, i)] + spec_lines_from(s, spec_line_end(s, i) + 1)
    }
}

proof fn lemma_line_end_shift(p: Seq<char>, r: Seq<char>, j: int)
    requires
        0 <= j <= r.len(),
    ensures
        spec_line_end(p + r, p.len() + j) == p.len() + spec_line_end(r, j),
    decreases r.len() - j,
{
    if j < r.len() {
        assert((p + r)[p.len() + j] == r[j]);
        if r[j] != '\n' {
            lemma_line_end_shift(p, r, j + 1);
        }
    }
}

proof fn lemma_lines_from_shift(p: Seq<char>, r: Seq<char>, j: int)
    requires
        0 <= j <= r.len(),
    ensures
        spec_lines_from(p + r, p.len() + j) == spec_lines_from(r, j),
    decreases r.len() - j,
{
    let s = p + r;
    if j < r.len() {
        lemma_line_end_shift(p, r, j);
        lemma_line_end_bounds(r, j);
        let e = spec_line_end(r, j);
        if e < r.len() && e > j {
            assert(s[p.len() + e - 1] == r[e - 1]);
        }
        assert(s.subrange(p.len() + j, p.len() + e) =~= r.subrange(j, e));
        if e > j {
            assert(s.subrange(p.len() + j, p.len() + e - 1) =~= r.subrange(j, e - 1));
        }
        assert(spec_line_text(s, p.len() + j) == spec_line_text(r, j));
        if e + 1 <= r.len() {
            lemma_lines_from_shift(p, r, e + 1);
        }
        assert(spec_line_end(s, p.len() + j) == p.len() + e);
        assert(spec_lines_from(s, p.len() + j) == seq![spec_line_text(s, p.len() + j)] + spec_lines_from(
            s,
            p.len() + e + 1,
        ));
        assert(spec_lines_from(r, j) == seq![spec_line_text(r, j)] + spec_lines_from(r, e + 1));
    }
}

/// A line without a line break.
pub open spec fn spec_is_line(w: Seq<char>) -> bool {
    forall|k: int| 0 <= k < w.len() ==> #[trigger] w[k] != '\n'
}

proof fn lemma_line_end_of_line(w: Seq<char>, r: Seq<char>, i: int)
    requires
        spec_is_line(w),
        r.len() == 0 || r[0] == '\n',
        0 <= i <= w.len(),
    ensures
        spec_line_end(w + r, i) == w.len(),
    decreases w.len() - i,
{
    if i < w.len() {
        assert((w + r)[i] == w[i]);
        lemma_line_end_of_line(w, r, i + 1);
    } else if r.len() > 0 {
        assert((w + r)[i] == r[0]);
    }
}

/// Joining lines with line breaks keeps the first line and a break in front.
pub proof fn lemma_join_front_sep(ws: Seq<Seq<char>>, sep: Seq<char>)
    requires
        ws.len() >= 2,
    ensures
        spec_join(ws, sep) == ws[0] + sep + spec_join(ws.drop_first(), sep),
    decreases ws.len(),
{
    let a = ws.drop_last();
    let b = ws.drop_first();
    if ws.len() > 2 {
        lemma_join_front_sep(a, sep);
        assert(a.drop_first() =~= b.drop_last());
        assert(a[0] == ws[0]);
        assert(b.last() == ws.last());
        assert(spec_join(b, sep) == spec_join(b.drop_last(), sep) + sep + b.last());
        assert(spec_join(ws, sep) =~= ws[0] + sep + spec_join(b, sep));
    } else {
        assert(spec_join(b, sep) == b[0]);
        assert(spec_join(a, sep) == a[0]);
        assert(spec_join(ws, sep) =~= ws[0] + sep + spec_join(b, sep));
    }
}

/// The lines of lines joined with line breaks (and one more after the last,
/// when `trailing`) are those lines: none holds a line break, none but the
/// last ends with `\r`, the last neither when a break follows it, and the
/// last is not empty when none does.
pub proof fn lemma_lines_of_joined(ws: Seq<Seq<char>>, trailing: bool)
    requires
        ws.len() > 0,
        forall|k: int| 0 <= k < ws.len() ==> spec_is_line(#[trigger] ws[k]),
        forall|k: int| 0 <= k < ws.len() - 1 ==> (#[trigger] ws[k]).len() == 0 || ws[k].last() != '\r',
        trailing ==> ws.last().len() == 0 || ws.last().last() != '\r',
        !trailing ==> ws.last().len() > 0,
    ensures
        spec_lines(if trailing { spec_join(ws, "\n"@).push('\n') } else { spec_join(ws, "\n"@) }) == ws,
    decreases ws.len(),
{
    reveal_strlit("\n");
    let nl = "\n"@;
    let w = ws[0];
    if ws.len() == 1 {
        assert(spec_join(ws, nl) == w);
        if trailing {
            let s = w.push('\n');
            assert(s =~= w + nl);
            lemma_line_end_of_line(w, nl, 0);
            assert(spec_line_end(s, 0) == w.len());
            if w.len() > 0 {
                assert(s[w.len() - 1] == w.last());
            }
            assert(s.subrange(0, w.len() as int) =~= w);
            assert(spec_line_text(s, 0) == w);
            assert(spec_lines_from(s, w.len() as int + 1) =~= Seq::<Seq<char>>::empty());
            assert(spec_lines(s) =~= ws);
        } else {
            lemma_line_end_of_line(w, Seq::empty(), 0);
            assert(w + Seq::<char>::empty() =~= w);
            assert(spec_line_end(w, 0) == w.len());
            assert(w.subrange(0, w.len() as int) =~= w);
            assert(spec_line_text(w, 0) == w);
            assert(spec_lines_from(w, w.len() as int + 1) =~= Seq::<Seq<char>>::empty());
            assert(spec_lines(w) =~= ws);
        }
    } else {
        let rest = ws.drop_first();
        lemma_join_front_sep(ws, nl);
        let jr = spec_join(rest, nl);
        let tail = if trailing { jr.push('\n') } else { jr };
        let s = if trailing { spec_join(ws, nl).push('\n') } else { spec_join(ws, nl) };
        let q = w + nl;
        assert(s =~= q + tail);
        assert forall|k: int| 0 <= k < rest.len() implies spec_is_line(#[trigger] rest[k]) by {
            assert(rest[k] == ws[k + 1]);
        }
        assert forall|k: int| 0 <= k < rest.len() - 1 implies (#[trigger] rest[k]).len() == 0 || rest[k].last() != '\r' by {
            assert(rest[k] == ws[k + 1]);
        }
        assert(rest.last() == ws.last());
        lemma_lines_of_joined(rest, trailing);
        assert(spec_lines(tail) == rest);
        assert(s =~= w + (nl + tail));
        lemma_line_end_of_line(w, nl + tail, 0);
        assert(spec_is_line(ws[0]));
        assert(w.len() == 0 || w.last() != '\r');
        if w.len() > 0 {
            assert(s[w.len() - 1] == w.last());
        }
        assert(s.subrange(0, w.len() as int) =~= w);
        assert(spec_line_text(s, 0) == w);
        assert(q.len() == w.len() + 1);
        lemma_lines_from_shift(q, tail, 0);
        assert(spec_lines_from(s, w.len() as int + 1) == rest);
        assert(spec_lines(s) =~= seq![w] + rest);
        assert(ws =~= seq![w] + rest);
    }
}

/// The lines of a text hold no line break; a text that does not end with a
/// line break has lines, the last of them not empty.
pub proof fn lemma_lines_shape(s: Seq<char>, i: int)
    requires
        0 <= i,
    ensures
        forall|k: int| 0 <= k < spec_lines_from(s, i).len() ==> spec_is_line(#[trigger] spec_lines_from(s, i)[k]),
        i < s.len() && s.last() != '\n' ==> spec_lines_from(s, i).len() > 0 && spec_lines_from(s, i).last().len() > 0,
    decreases s.len() + 1 - i,
{
    if i < s.len() {
        lemma_line_end_bounds(s, i);
        let e = spec_line_end(s, i);
        lemma_lines_shape(s, e + 1);
        let w = spec_line_text(s, i);
        assert(spec_is_line(w)) by {
            assert forall|k: int| 0 <= k < w.len() implies #[trigger] w[k] != '\n' by {
                assert(w[k] == s[i + k]);
            }
        }
        let rest = spec_lines_from(s, e + 1);
        let all = spec_lines_from(s, i);
        assert(all == seq![w] + rest);
        assert forall|k: int| 0 <= k < all.len() implies spec_is_line(#[trigger] all[k]) by {
            if k > 0 {
                assert(all[k] == rest[k - 1]);
            }
        }
        if s.last() != '\n' {
            if e + 1 >= s.len() {
                if e < s.len() {
                    assert(e == s.len() - 1);
                    assert(s[e] == '\n');
                }
                assert(e == s.len());
                assert(rest.len() == 0);
                assert(w =~= s.subrange(i, s.len() as int));
                assert(all.last() == w);
            } else {
                assert(all.last() == rest.last());
            }
        }
    }
}

/// `str::lines`: the lines of `s`, split at `'\n'`, each without its line
/// ending; a final line ending opens no further line.
pub open spec fn spec_lines(s: Seq<char>) -> Seq<Seq<char>> {
    spec_lines_from(s, 0)
}

fn line_end(s: &Vec<char>, i: usize) -> (e: usize)
    requires
        i <= s@.len(),
    ensures
        e == spec_line_end(s@, i as int),
{
    let mut j = i;
    while j < s.len() && s[j] != '\n'
        invariant
            i <= j <= s@.len(),
            spec_line_end(s@, j as int) == spec_line_end(s@, i as int),
        decreases s.len() - j,
    {
        j = j + 1;
    }
    j
}

/// The lines of `text`, as `str::lines` yields them.
pub fn split_lines(text: &str) -> (lines: Vec<String>)
    ensures
        spec_string_views(lines@) == spec_lines(text@),
{
    let s = chars_of(text);
    let n = s.len();
    let mut lines: Vec<String> = Vec::new();
    let mut start: usize = 0;
    while start < n
        invariant
            n == s@.len(),
            s@ == text@,
            0 <= start,
            spec_string_views(lines@) + spec_lines_from(s@, start as int) == spec_lines(s@),
        decreases n - start,
    {
        let e = line_end(&s, start);
        proof {
            lemma_line_end_bounds(s@, start as int);
        }
        let line = if e < n && e > start && s[e - 1] == '\r' {
            slice_chars(&s, start, e - 1)
        } else {
            slice_chars(&s, start, e)
        };
        let text_line = string_from_chars(line.as_slice());
        let ghost before = lines@;
        lines.push(text_line);
        proof {
            lemma_string_views_push(before, text_line);
            assert(text_line@ == spec_line_text(s@, start as int));
            assert(spec_lines_from(s@, start as int) == seq![spec_line_text(s@, start as int)]
                + spec_lines_from(s@, e + 1));
            assert(spec_string_views(lines@) + spec_lines_from(s@, e + 1) =~= spec_string_views(
                before,
            ) + spec_lines_from(s@, start as int));
        }
        if e < n {
            start = e + 1;
        } else {
            proof {
                assert(spec_lines_from(s@, e + 1) =~= spec_lines_from(s@, n as int));
            }
            start = n;
        }
    }
    proof {
        assert(spec_lines_from(s@, start as int) =~= Seq::<Seq<char>>::empty());
        assert(spec_string_views(lines@) + Seq::<Seq<char>>::empty() =~= spec_string_views(lines@));
    }
    lines
}

/// The lines joined with `sep` between each two (`[..].join(sep)`).
pub open spec fn spec_join(lines: Seq<Seq<char>>, sep: Seq<char>) -> Seq<char>
    decreases lines.len(),
{
    if lines.len() == 0 {
        seq![]
    } else if lines.len() == 1 {
        lines[0]
    } else {
        spec_join(lines.drop_last(), sep) + sep + lines.last()
    }
}

/// The lines joined with `sep` between each two.
pub fn join_lines(lines: &Vec<String>, sep: &str) -> (r: String)
    ensures
        r@ == spec_join(spec_string_views(lines@), sep@),
{
    let ghost ls = spec_string_views(lines@);
    let mut out: Vec<char> = Vec::new();
    let mut i: usize = 0;
    while i < lines.len()
        invariant
            0 <= i <= lines@.len(),
            ls == spec_string_views(lines@),
            out@ == spec_join(ls.subrange(0, i as int), sep@),
        decreases lines.len() - i,
    {
        if i > 0 {
            push_str(&mut out, sep);
        }
        push_str(&mut out, lines[i].as_str());
        proof {
            assert(ls.subrange(0, i + 1).drop_last() =~= ls.subrange(0, i as int));
            if i == 0 {
                assert(spec_join(ls.subrange(0, 1), sep@) == ls[0]);
            }
        }
        i = i + 1;
    }
    proof {
        assert(ls.subrange(0, lines@.len() as int) =~= ls);
    }
    string_from_chars(out.as_slice())
}

/// `s` with every occurrence of `pat` from position `i` on, left to right and
/// without overlap, replaced by `rep`; an empty pattern replaces nothing.
pub open spec fn spec_replace_from(s: Seq<char>, pat: Seq<char>, rep: Seq<char>, i: int) -> Seq<char>
    decreases s.len() - i,
{
    if i < 0 || i >= s.len() {
        seq![]
    } else if pat.len() > 0 && spec_matches_at(s, pat, i) {
        rep + spec_replace_from(s, pat, rep, i + pat.len())
    } else {
        seq![s[i]] + spec_replace_from(s, pat, rep, i + 1)
    }
}

/// `str::replace` for a non-empty pattern.
pub open spec fn spec_replace(s: Seq<char>, pat: Seq<char>, rep: Seq<char>) -> Seq<char> {
    spec_replace_from(s, pat, rep, 0)
}

/// `s` with every occurrence of `pat`, left to right, replaced by `rep`.
pub fn replace_all(s: &str, pat: &str, rep: &str) -> (r: String)
    ensures
        r@ == spec_replace(s@, pat@, rep@),
{
    let v = chars_of(s);
    let p = chars_of(pat);
    let r = chars_of(rep);
    let n = v.len();
    let mut out: Vec<char> = Vec::new();
    let mut i: usize = 0;
    while i < n
        invariant
            n == v@.len(),
            v@ == s@,
            p@ == pat@,
            r@ == rep@,
            0 <= i,
            out@ + spec_replace_from(v@, p@, r@, i as int) == spec_replace(v@, p@, r@),
        decreases n - i,
    {
        let ghost before = out@;
        if p.len() > 0 && matches_at(&v, &p, i) {
            push_chars(&mut out, &r);
            proof {
                assert(out@ + spec_replace_from(v@, p@, r@, i + p@.len()) =~= before
                    + spec_replace_from(v@, p@, r@, i as int));
            }
            i = i + p.len();
        } else {
            out.push(v[i]);
            proof {
                assert(out@ + spec_replace_from(v@, p@, r@, i + 1) =~= before + spec_replace_from(
                    v@,
                    p@,
                    r@,
                    i as int,
                ));
            }
            i = i + 1;
        }
    }
    proof {
        assert(out@ + Seq::<char>::empty() =~= out@);
    }
    string_from_chars(out.as_slice())
}

} // verus!
