//! Text rules shared by the library: Unicode whitespace, trimming, searching,
//! ASCII case folding and decimal rendering, all over sequences of characters.
use vstd::prelude::*;

use crate::chars::{chars_of, string_from_chars};

verus! {

/// `char::is_whitespace`: the characters with the Unicode `White_Space` property.
pub open spec fn spec_is_whitespace(c: char) -> bool {
    ||| c == ' '
    ||| ('\t' <= c && c <= '\r')
    ||| c == '\u{85}'
    ||| c == '\u{a0}'
    ||| c == '\u{1680}'
    ||| ('\u{2000}' <= c && c <= '\u{200a}')
    ||| c == '\u{2028}'
    ||| c == '\u{2029}'
    ||| c == '\u{202f}'
    ||| c == '\u{205f}'
    ||| c == '\u{3000}'
}

pub fn is_whitespace(c: char) -> (b: bool)
    ensures
        b == spec_is_whitespace(c),
{
    c == ' ' || ('\t' <= c && c <= '\r') || c == '\u{85}' || c == '\u{a0}' || c == '\u{1680}'
        || ('\u{2000}' <= c && c <= '\u{200a}') || c == '\u{2028}' || c == '\u{2029}'
        || c == '\u{202f}' || c == '\u{205f}' || c == '\u{3000}'
}

/// `str::trim_start`: drops the leading whitespace.
pub open spec fn spec_trim_start(s: Seq<char>) -> Seq<char>
    decreases s.len(),
{
    if s.len() > 0 && spec_is_whitespace(s[0]) {
        spec_trim_start(s.drop_first())
    } else {
        s
    }
}

/// `str::trim_end`: drops the trailing whitespace.
pub open spec fn spec_trim_end(s: Seq<char>) -> Seq<char>
    decreases s.len(),
{
    if s.len() > 0 && spec_is_whitespace(s.last()) {
        spec_trim_end(s.drop_last())
    } else {
        s
    }
}

/// `str::trim`: drops the leading and the trailing whitespace.
pub open spec fn spec_trim(s: Seq<char>) -> Seq<char> {
    spec_trim_end(spec_trim_start(s))
}

/// Trimming the start of `s` leaves what follows its leading whitespace,
/// which ends at `k`.
pub proof fn lemma_trim_start_at(s: Seq<char>, k: int)
    requires
        0 <= k <= s.len(),
        forall|j: int| 0 <= j < k ==> spec_is_whitespace(s[j]),
        k == s.len() || !spec_is_whitespace(s[k]),
    ensures
        spec_trim_start(s) == s.subrange(k, s.len() as int),
    decreases k,
{
    if k > 0 {
        lemma_trim_start_at(s.drop_first(), k - 1);
        assert(s.drop_first().subrange(k - 1, s.len() - 1) =~= s.subrange(k, s.len() as int));
    } else {
        assert(s.subrange(0, s.len() as int) =~= s);
    }
}

/// Trimming the end of `s` leaves what precedes its trailing whitespace,
/// which starts at `k`.
pub proof fn lemma_trim_end_at(s: Seq<char>, k: int)
    requires
        0 <= k <= s.len(),
        forall|j: int| k <= j < s.len() ==> spec_is_whitespace(s[j]),
        k == 0 || !spec_is_whitespace(s[k - 1]),
    ensures
        spec_trim_end(s) == s.subrange(0, k),
    decreases s.len() - k,
{
    if k < s.len() {
        lemma_trim_end_at(s.drop_last(), k);
        assert(s.drop_last().subrange(0, k) =~= s.subrange(0, k));
    } else {
        assert(s.subrange(0, s.len() as int) =~= s);
    }
}

/// The trimmed characters of `s`.
pub fn trim_chars(s: &Vec<char>) -> (t: Vec<char>)
    ensures
        t@ == spec_trim(s@),
{
    let n = s.len();
    let mut start: usize = 0;
    while start < n && is_whitespace(s[start])
        invariant
            n == s@.len(),
            0 <= start <= n,
            forall|j: int| 0 <= j < start ==> spec_is_whitespace(s@[j]),
        decreases n - start,
    {
        start = start + 1;
    }
    proof {
        lemma_trim_start_at(s@, start as int);
    }
    let ghost mid = s@.subrange(start as int, n as int);
    let mut end: usize = n;
    while end > start && is_whitespace(s[end - 1])
        invariant
            n == s@.len(),
            0 <= start <= end <= n,
            mid == s@.subrange(start as int, n as int),
            forall|j: int| end <= j < n ==> spec_is_whitespace(s@[j]),
        decreases end,
    {
        end = end - 1;
    }
    proof {
        assert forall|j: int| end - start <= j < mid.len() implies spec_is_whitespace(mid[j]) by {
            assert(mid[j] == s@[start + j]);
        }
        if end > start {
            assert(mid[end - start - 1] == s@[end - 1]);
        }
        lemma_trim_end_at(mid, end - start);
        assert(mid.subrange(0, end - start) =~= s@.subrange(start as int, end as int));
    }
    slice_chars(s, start, end)
}

/// The characters `s[from..to]`.
pub fn slice_chars(s: &Vec<char>, from: usize, to: usize) -> (t: Vec<char>)
    requires
        from <= to <= s@.len(),
    ensures
        t@ == s@.subrange(from as int, to as int),
{
    let mut t: Vec<char> = Vec::new();
    let mut i = from;
    while i < to
        invariant
            from <= i <= to <= s@.len(),
            t@ == s@.subrange(from as int, i as int),
        decreases to - i,
    {
        t.push(s[i]);
        i = i + 1;
        proof {
            assert(t@ =~= s@.subrange(from as int, i as int));
        }
    }
    t
}

/// `str::trim` as a new string.
pub fn trim(s: &str) -> (t: String)
    ensures
        t@ == spec_trim(s@),
{
    let v = chars_of(s);
    let r = trim_chars(&v);
    string_from_chars(r.as_slice())
}

/// Appends the characters of `s` to `v`.
pub fn push_str(v: &mut Vec<char>, s: &str)
    ensures
        final(v)@ == old(v)@ + s@,
{
    let c = chars_of(s);
    push_chars(v, &c);
}

/// Appends `c` to `v`.
pub fn push_chars(v: &mut Vec<char>, c: &Vec<char>)
    ensures
        final(v)@ == old(v)@ + c@,
{
    let ghost start = v@;
    let mut i: usize = 0;
    while i < c.len()
        invariant
            0 <= i <= c@.len(),
            v@ == start + c@.subrange(0, i as int),
        decreases c.len() - i,
    {
        v.push(c[i]);
        i = i + 1;
        proof {
            assert(v@ =~= start + c@.subrange(0, i as int));
        }
    }
    proof {
        assert(c@.subrange(0, c@.len() as int) =~= c@);
    }
}

/// `s` begins with `p` at position `at`.
pub open spec fn spec_matches_at(s: Seq<char>, p: Seq<char>, at: int) -> bool {
    0 <= at && at + p.len() <= s.len() && s.subrange(at, at + p.len()) == p
}

/// `str::starts_with`.
pub open spec fn spec_starts_with(s: Seq<char>, p: Seq<char>) -> bool {
    spec_matches_at(s, p, 0)
}

/// The first position at or after `from` where `p` occurs in `s` (`str::find` on `s[from..]`).
pub open spec fn spec_find_from(s: Seq<char>, p: Seq<char>, from: int) -> Option<int>
    decreases s.len() + 1 - from,
{
    if from < 0 || from + p.len() > s.len() {
        None
    } else if spec_matches_at(s, p, from) {
        Some(from)
    } else {
        spec_find_from(s, p, from + 1)
    }
}

pub fn matches_at(s: &Vec<char>, p: &Vec<char>, at: usize) -> (b: bool)
    ensures
        b == spec_matches_at(s@, p@, at as int),
{
    if at > s.len() || p.len() > s.len() - at {
        return false;
    }
    let mut k: usize = 0;
    while k < p.len()
        invariant
            at + p@.len() <= s@.len(),
            s@.len() == s.len(),
            0 <= k <= p@.len(),
            forall|j: int| 0 <= j < k ==> s@[at + j] == p@[j],
        decreases p.len() - k,
    {
        if s[at + k] != p[k] {
            proof {
                assert(s@.subrange(at as int, at + p@.len())[k as int] != p@[k as int]);
            }
            return false;
        }
        k = k + 1;
    }
    proof {
        assert(s@.subrange(at as int, at + p@.len()) =~= p@);
    }
    true
}

/// A found occurrence lies at or after `from` and fits in `s`.
pub proof fn lemma_find_from_bounds(s: Seq<char>, p: Seq<char>, from: int)
    ensures
        spec_find_from(s, p, from) matches Some(i) ==> from <= i && i + p.len() <= s.len()
            && spec_matches_at(s, p, i),
    decreases s.len() + 1 - from,
{
    if !(from < 0 || from + p.len() > s.len()) && !spec_matches_at(s, p, from) {
        lemma_find_from_bounds(s, p, from + 1);
    }
}

pub proof fn lemma_find_from_none(s: Seq<char>, p: Seq<char>, from: int)
    requires
        0 <= from,
        forall|i: int| from <= i && i + p.len() <= s.len() ==> !spec_matches_at(s, p, i),
    ensures
        spec_find_from(s, p, from) is None,
    decreases s.len() + 1 - from,
{
    if from + p.len() <= s.len() {
        lemma_find_from_none(s, p, from + 1);
    }
}

pub proof fn lemma_find_from_some(s: Seq<char>, p: Seq<char>, from: int, at: int)
    requires
        0 <= from <= at,
        spec_matches_at(s, p, at),
        forall|i: int| from <= i < at ==> !spec_matches_at(s, p, i),
    ensures
        spec_find_from(s, p, from) == Some(at),
    decreases at - from,
{
    if from < at {
        lemma_find_from_some(s, p, from + 1, at);
    }
}

/// The first occurrence of `p` in `s` at or after `from`.
pub fn find_from(s: &Vec<char>, p: &Vec<char>, from: usize) -> (r: Option<usize>)
    ensures
        match r {
            Some(i) => spec_find_from(s@, p@, from as int) == Some(i as int),
            None => spec_find_from(s@, p@, from as int) is None,
        },
{
    if from > s.len() || p.len() > s.len() - from {
        return None;
    }
    let last = s.len() - p.len();
    let mut i = from;
    while i <= last
        invariant
            from <= i,
            last + p@.len() == s@.len(),
            forall|j: int| from <= j < i ==> !spec_matches_at(s@, p@, j),
        decreases last + 1 - i,
    {
        if matches_at(s, p, i) {
            proof {
                lemma_find_from_some(s@, p@, from as int, i as int);
            }
            return Some(i);
        }
        if i == last {
            proof {
                lemma_find_from_none(s@, p@, from as int);
            }
            return None;
        }
        i = i + 1;
    }
    proof {
        lemma_find_from_none(s@, p@, from as int);
    }
    None
}

/// `char::to_ascii_lowercase`.
pub open spec fn spec_ascii_lower(c: char) -> char {
    if 'A' <= c && c <= 'Z' {
        ((c as u32) + 32) as char
    } else {
        c
    }
}

pub fn ascii_lower(c: char) -> (r: char)
    ensures
        r == spec_ascii_lower(c),
{
    if 'A' <= c && c <= 'Z' {
        ((c as u8) + 32) as char
    } else {
        c
    }
}

/// `str::to_ascii_lowercase`.
pub open spec fn spec_ascii_lowercase(s: Seq<char>) -> Seq<char> {
    s.map_values(|c: char| spec_ascii_lower(c))
}

pub fn ascii_lowercase_chars(s: &Vec<char>) -> (t: Vec<char>)
    ensures
        t@ == spec_ascii_lowercase(s@),
{
    let mut t: Vec<char> = Vec::new();
    let mut i: usize = 0;
    while i < s.len()
        invariant
            0 <= i <= s@.len(),
            t@ == spec_ascii_lowercase(s@.subrange(0, i as int)),
        decreases s.len() - i,
    {
        t.push(ascii_lower(s[i]));
        i = i + 1;
        proof {
            assert(t@ =~= spec_ascii_lowercase(s@.subrange(0, i as int)));
        }
    }
    proof {
        assert(s@.subrange(0, s@.len() as int) =~= s@);
    }
    t
}

/// The decimal digits of `n` (`u64::to_string`).
pub open spec fn spec_decimal(n: nat) -> Seq<char>
    decreases n,
{
    if n < 10 {
        seq![spec_digit(n)]
    } else {
        spec_decimal(n / 10) + seq![spec_digit(n % 10)]
    }
}

pub open spec fn spec_digit(d: nat) -> char {
    (('0' as u32) + d) as char
}

/// Renders `n` in decimal.
pub fn decimal(n: u64) -> (s: String)
    ensures
        s@ == spec_decimal(n as nat),
{
    let v = decimal_chars(n);
    string_from_chars(v.as_slice())
}

pub fn decimal_chars(n: u64) -> (v: Vec<char>)
    ensures
        v@ == spec_decimal(n as nat),
    decreases n,
{
    let d = ((n % 10) as u8 + 48u8) as char;
    if n < 10 {
        let mut v: Vec<char> = Vec::new();
        v.push(d);
        proof {
            assert(v@ =~= seq![spec_digit(n as nat)]);
        }
        v
    } else {
        let mut v = decimal_chars(n / 10);
        v.push(d);
        proof {
            assert(v@ =~= spec_decimal((n / 10) as nat) + seq![spec_digit((n % 10) as nat)]);
        }
        v
    }
}

/// `str::contains`.
pub open spec fn spec_contains(s: Seq<char>, p: Seq<char>) -> bool {
    spec_find_from(s, p, 0) is Some
}

/// `s` contains `p`.
pub fn contains(s: &str, p: &str) -> (b: bool)
    ensures
        b == spec_contains(s@, p@),
{
    let x = chars_of(s);
    let y = chars_of(p);
    find_from(&x, &y, 0).is_some()
}

/// `str::to_ascii_lowercase`.
pub fn ascii_lowercase(s: &str) -> (t: String)
    ensures
        t@ == spec_ascii_lowercase(s@),
{
    let v = chars_of(s);
    let r = ascii_lowercase_chars(&v);
    string_from_chars(r.as_slice())
}

/// `s` followed by `t`.
pub fn concat2(s: &str, t: &str) -> (r: String)
    ensures
        r@ == s@ + t@,
{
    let mut v: Vec<char> = Vec::new();
    push_str(&mut v, s);
    push_str(&mut v, t);
    proof {
        assert(v@ =~= s@ + t@);
    }
    string_from_chars(v.as_slice())
}

/// `a`, `b` and `c` in a row.
pub fn concat3(a: &str, b: &str, c: &str) -> (r: String)
    ensures
        r@ == a@ + b@ + c@,
{
    let mut v: Vec<char> = Vec::new();
    push_str(&mut v, a);
    push_str(&mut v, b);
    push_str(&mut v, c);
    proof {
        assert(v@ =~= a@ + b@ + c@);
    }
    string_from_chars(v.as_slice())
}

/// `a`, `b`, `c` and `d` in a row.
pub fn concat4(a: &str, b: &str, c: &str, d: &str) -> (r: String)
    ensures
        r@ == a@ + b@ + c@ + d@,
{
    let mut v: Vec<char> = Vec::new();
    push_str(&mut v, a);
    push_str(&mut v, b);
    push_str(&mut v, c);
    push_str(&mut v, d);
    proof {
        assert(v@ =~= a@ + b@ + c@ + d@);
    }
    string_from_chars(v.as_slice())
}

/// `a`, `b`, `c`, `d` and `e` in a row.
pub fn concat5(a: &str, b: &str, c: &str, d: &str, e: &str) -> (r: String)
    ensures
        r@ == a@ + b@ + c@ + d@ + e@,
{
    let mut v: Vec<char> = Vec::new();
    push_str(&mut v, a);
    push_str(&mut v, b);
    push_str(&mut v, c);
    push_str(&mut v, d);
    push_str(&mut v, e);
    proof {
        assert(v@ =~= a@ + b@ + c@ + d@ + e@);
    }
    string_from_chars(v.as_slice())
}

/// Drops the leading characters that satisfy `p`.
pub open spec fn spec_trim_start_while(s: Seq<char>, p: spec_fn(char) -> bool) -> Seq<char>
    decreases s.len(),
{
    if s.len() > 0 && p(s[0]) {
        spec_trim_start_while(s.drop_first(), p)
    } else {
        s
    }
}

/// Drops the trailing characters that satisfy `p`.
pub open spec fn spec_trim_end_while(s: Seq<char>, p: spec_fn(char) -> bool) -> Seq<char>
    decreases s.len(),
{
    if s.len() > 0 && p(s.last()) {
        spec_trim_end_while(s.drop_last(), p)
    } else {
        s
    }
}

proof fn lemma_trim_start_front(s: Seq<char>)
    ensures
        spec_trim_start(s).len() == 0 || !spec_is_whitespace(spec_trim_start(s)[0]),
    decreases s.len(),
{
    if s.len() > 0 && spec_is_whitespace(s[0]) {
        lemma_trim_start_front(s.drop_first());
    }
}

proof fn lemma_trim_end_prefix(s: Seq<char>)
    ensures
        spec_trim_end(s).len() <= s.len(),
        spec_trim_end(s) == s.subrange(0, spec_trim_end(s).len() as int),
        spec_trim_end(s).len() == 0 || !spec_is_whitespace(spec_trim_end(s).last()),
    decreases s.len(),
{
    if s.len() > 0 && spec_is_whitespace(s.last()) {
        lemma_trim_end_prefix(s.drop_last());
        assert(s.drop_last().subrange(0, spec_trim_end(s).len() as int) =~= s.subrange(
            0,
            spec_trim_end(s).len() as int,
        ));
    } else {
        assert(s.subrange(0, s.len() as int) =~= s);
    }
}

/// Trimming twice is trimming once.
pub proof fn lemma_trim_idempotent(s: Seq<char>)
    ensures
        spec_trim(spec_trim(s)) == spec_trim(s),
{
    let a = spec_trim_start(s);
    let b = spec_trim_end(a);
    lemma_trim_start_front(s);
    lemma_trim_end_prefix(a);
    if b.len() > 0 {
        assert(b[0] == a[0]);
    }
    assert(spec_trim_start(b) == b);
    assert(spec_trim_end(b) == b);
}

/// Dropping the leading characters that meet `p` leaves a suffix of `s`
/// (from the returned position on) that does not start with such a character.
pub proof fn lemma_trim_start_while_split(s: Seq<char>, p: spec_fn(char) -> bool) -> (k: int)
    ensures
        0 <= k <= s.len(),
        spec_trim_start_while(s, p) == s.subrange(k, s.len() as int),
        forall|j: int| 0 <= j < k ==> p(#[trigger] s[j]),
        k < s.len() ==> !p(s[k]),
    decreases s.len(),
{
    if s.len() > 0 && p(s[0]) {
        let k0 = lemma_trim_start_while_split(s.drop_first(), p);
        assert(s.drop_first().subrange(k0, s.drop_first().len() as int) =~= s.subrange(k0 + 1, s.len() as int));
        assert forall|j: int| 0 <= j < k0 + 1 implies p(#[trigger] s[j]) by {
            if j > 0 {
                assert(s[j] == s.drop_first()[j - 1]);
            }
        }
        k0 + 1
    } else {
        assert(s.subrange(0, s.len() as int) =~= s);
        0
    }
}

/// Dropping the trailing characters that meet `p` leaves a prefix of `s`
/// (up to the returned position) that does not end with such a character.
pub proof fn lemma_trim_end_while_split(s: Seq<char>, p: spec_fn(char) -> bool) -> (k: int)
    ensures
        0 <= k <= s.len(),
        spec_trim_end_while(s, p) == s.subrange(0, k),
        forall|j: int| k <= j < s.len() ==> p(#[trigger] s[j]),
        k > 0 ==> !p(s[k - 1]),
    decreases s.len(),
{
    if s.len() > 0 && p(s.last()) {
        let k0 = lemma_trim_end_while_split(s.drop_last(), p);
        assert(s.drop_last().subrange(0, k0) =~= s.subrange(0, k0));
        assert forall|j: int| k0 <= j < s.len() implies p(#[trigger] s[j]) by {
            if j < s.len() - 1 {
                assert(s[j] == s.drop_last()[j]);
            }
        }
        k0
    } else {
        assert(s.subrange(0, s.len() as int) =~= s);
        s.len() as int
    }
}

/// Text without whitespace is its own trim.
pub proof fn lemma_trim_without_whitespace(s: Seq<char>)
    requires
        forall|j: int| 0 <= j < s.len() ==> !spec_is_whitespace(#[trigger] s[j]),
    ensures
        spec_trim(s) == s,
{
    assert(spec_trim_start(s) == s);
    assert(spec_trim_end(s) == s);
}

/// Dropping the leading characters that meet `p` leaves what follows them,
/// from `k` on.
proof fn lemma_trim_start_while_at(s: Seq<char>, p: spec_fn(char) -> bool, k: int)
    requires
        0 <= k <= s.len(),
        forall|j: int| 0 <= j < k ==> p(s[j]),
        k == s.len() || !p(s[k]),
    ensures
        spec_trim_start_while(s, p) == s.subrange(k, s.len() as int),
    decreases k,
{
    if k > 0 {
        lemma_trim_start_while_at(s.drop_first(), p, k - 1);
        assert(s.drop_first().subrange(k - 1, s.len() - 1) =~= s.subrange(k, s.len() as int));
    } else {
        assert(s.subrange(0, s.len() as int) =~= s);
    }
}

/// Dropping the trailing characters that meet `p` leaves what precedes
/// them, up to `k`.
pub proof fn lemma_trim_end_while_at(s: Seq<char>, p: spec_fn(char) -> bool, k: int)
    requires
        0 <= k <= s.len(),
        forall|j: int| k <= j < s.len() ==> p(s[j]),
        k == 0 || !p(s[k - 1]),
    ensures
        spec_trim_end_while(s, p) == s.subrange(0, k),
    decreases s.len() - k,
{
    if k < s.len() {
        lemma_trim_end_while_at(s.drop_last(), p, k);
        assert(s.drop_last().subrange(0, k) =~= s.subrange(0, k));
    } else {
        assert(s.subrange(0, s.len() as int) =~= s);
    }
}

/// Drops every leading `c` (`str::trim_start_matches(c)`).
pub fn trim_start_char(s: &Vec<char>, c: char) -> (t: Vec<char>)
    ensures
        t@ == spec_trim_start_while(s@, |x: char| x == c),
{
    let n = s.len();
    let mut k: usize = 0;
    while k < n && s[k] == c
        invariant
            n == s@.len(),
            0 <= k <= n,
            forall|j: int| 0 <= j < k ==> s@[j] == c,
        decreases n - k,
    {
        k = k + 1;
    }
    proof {
        lemma_trim_start_while_at(s@, |x: char| x == c, k as int);
    }
    slice_chars(s, k, n)
}

/// Drops every trailing `c` (`str::trim_end_matches(c)`).
pub fn trim_end_char(s: &Vec<char>, c: char) -> (t: Vec<char>)
    ensures
        t@ == spec_trim_end_while(s@, |x: char| x == c),
{
    let n = s.len();
    let mut k: usize = n;
    while k > 0 && s[k - 1] == c
        invariant
            n == s@.len(),
            0 <= k <= n,
            forall|j: int| k <= j < n ==> s@[j] == c,
        decreases k,
    {
        k = k - 1;
    }
    proof {
        lemma_trim_end_while_at(s@, |x: char| x == c, k as int);
    }
    slice_chars(s, 0, k)
}

} // verus!
