//! Where Publo keeps its files and how a workspace's configuration is layered:
//! the home directory, the global and workspace config files, workspace keys
//! and display names, and the effective runtime configuration.
use vstd::prelude::*;

use crate::chars::{
    char_to_lowercase, char_to_uppercase, chars_of, is_ascii_alphanumeric,
    spec_is_ascii_alphanumeric, spec_lower_char, spec_upper_char, string_from_chars,
};
use crate::errors::opt_seq;
use crate::lines::{join_lines, spec_join};
use crate::note::{lemma_string_views_push, spec_string_views};
use crate::paths::{path_is_absolute, path_join, spec_path_is_absolute, spec_path_join};
use crate::text::{
    lemma_trim_end_at, lemma_trim_end_while_split, lemma_trim_idempotent, lemma_trim_start_at,
    lemma_trim_start_while_split, lemma_trim_without_whitespace,
    spec_is_whitespace, push_chars, slice_chars, spec_starts_with, spec_trim, spec_trim_end_while,
    spec_trim_start_while, trim, trim_end_char, trim_start_char,
};

verus! {

/// The process environment as the path rules read it.
#[derive(Debug)]
pub struct EnvSnapshot {
    /// `HOME`.
    pub home: Option<String>,
    /// The current directory.
    pub cwd: Option<String>,
    /// `PUBLO_HOME`.
    pub publo_home: Option<String>,
    /// `PUBLO_CONFIG`.
    pub publo_config: Option<String>,
    /// `PUBLO_WORKSPACE`.
    pub publo_workspace: Option<String>,
    /// `PUBLO_ENV`.
    pub publo_env: Option<String>,
}

/// The user's home directory: `HOME`, else `.`.
pub open spec fn spec_home_dir(env: EnvSnapshot) -> Seq<char> {
    match env.home {
        Some(h) => h@,
        None => "."@,
    }
}

/// The user's home directory: `HOME`, else `.`.
pub fn home_dir(env: &EnvSnapshot) -> (h: String)
    ensures
        h@ == spec_home_dir(*env),
{
    match &env.home {
        Some(h) => h.clone(),
        None => ".".to_owned(),
    }
}

/// `~` is the home directory and `~/rest` lies under it; any other path stays.
pub open spec fn spec_expand_home_alias(raw: Seq<char>, env: EnvSnapshot) -> Seq<char> {
    if raw == "~"@ {
        spec_home_dir(env)
    } else if spec_starts_with(raw, "~/"@) {
        spec_path_join(spec_home_dir(env), raw.subrange(2, raw.len() as int))
    } else {
        raw
    }
}

/// Expands a leading `~` to the home directory.
pub fn expand_home_alias(raw: &str, env: &EnvSnapshot) -> (p: String)
    ensures
        p@ == spec_expand_home_alias(raw@, *env),
{
    let v = chars_of(raw);
    if v.len() == 1 && v[0] == '~' {
        proof {
            assert(raw@ =~= "~"@) by {
                reveal_strlit("~");
            }
        }
        return home_dir(env);
    }
    proof {
        reveal_strlit("~");
        reveal_strlit("~/");
        if raw@ == "~"@ {
            assert(v@.len() == 1 && v@[0] == '~');
        }
    }
    if v.len() >= 2 && v[0] == '~' && v[1] == '/' {
        let rest = slice_chars(&v, 2, v.len());
        let rest_s = string_from_chars(rest.as_slice());
        let home = home_dir(env);
        proof {
            assert(v@.subrange(0, 2) =~= "~/"@);
        }
        return path_join(home.as_str(), rest_s.as_str());
    }
    proof {
        if spec_starts_with(raw@, "~/"@) {
            assert(v@.subrange(0, 2)[0] == '~');
            assert(v@.subrange(0, 2)[1] == '/');
        }
    }
    raw.to_owned()
}

/// A relative path is taken from the current directory, when it is known.
pub open spec fn spec_absolutize_path(path: Seq<char>, env: EnvSnapshot) -> Seq<char> {
    if spec_path_is_absolute(path) {
        path
    } else {
        match env.cwd {
            Some(c) => spec_path_join(c@, path),
            None => path,
        }
    }
}

/// Makes a path absolute against the current directory.
pub fn absolutize_path(path: String, env: &EnvSnapshot) -> (p: String)
    ensures
        p@ == spec_absolutize_path(path@, *env),
{
    if path_is_absolute(path.as_str()) {
        return path;
    }
    match &env.cwd {
        Some(c) => path_join(c.as_str(), path.as_str()),
        None => path,
    }
}

/// A variable that is set to something besides whitespace, trimmed.
pub open spec fn spec_set_trimmed(v: Option<String>) -> Option<Seq<char>> {
    match v {
        Some(s) => if spec_trim(s@).len() > 0 {
            Some(spec_trim(s@))
        } else {
            None
        },
        None => None,
    }
}

fn set_trimmed(v: &Option<String>) -> (r: Option<String>)
    ensures
        opt_seq(r) == spec_set_trimmed(*v),
{
    match v {
        Some(s) => {
            let t = trim(s.as_str());
            if t.as_str().unicode_len() > 0 {
                Some(t)
            } else {
                None
            }
        },
        None => None,
    }
}

/// Publo's home: `PUBLO_HOME` when set, else `~/.publo.so`.
pub open spec fn spec_publo_home(env: EnvSnapshot) -> Seq<char> {
    match spec_set_trimmed(env.publo_home) {
        Some(t) => spec_absolutize_path(spec_expand_home_alias(t, env), env),
        None => spec_path_join(spec_home_dir(env), ".publo.so"@),
    }
}

/// Publo's home directory.
pub fn resolve_publo_home(env: &EnvSnapshot) -> (p: String)
    ensures
        p@ == spec_publo_home(*env),
{
    match set_trimmed(&env.publo_home) {
        Some(t) => {
            let e = expand_home_alias(t.as_str(), env);
            absolutize_path(e, env)
        },
        None => {
            let home = home_dir(env);
            path_join(home.as_str(), ".publo.so")
        },
    }
}

/// The global config file: `PUBLO_CONFIG` when set, else `config.toml` in the home.
pub open spec fn spec_global_config_path(env: EnvSnapshot, publo_home: Seq<char>) -> Seq<char> {
    match spec_set_trimmed(env.publo_config) {
        Some(t) => spec_absolutize_path(spec_expand_home_alias(t, env), env),
        None => spec_path_join(publo_home, "config.toml"@),
    }
}

/// The global config file.
pub fn resolve_global_config_path(env: &EnvSnapshot, publo_home: &str) -> (p: String)
    ensures
        p@ == spec_global_config_path(*env, publo_home@),
{
    match set_trimmed(&env.publo_config) {
        Some(t) => {
            let e = expand_home_alias(t.as_str(), env);
            absolutize_path(e, env)
        },
        None => path_join(publo_home, "config.toml"),
    }
}

/// The characters of `s`, each lower-cased as `char::to_lowercase` does.
pub open spec fn spec_lowercase_all(s: Seq<char>) -> Seq<char>
    decreases s.len(),
{
    if s.len() == 0 {
        seq![]
    } else {
        spec_lowercase_all(s.drop_last()) + spec_lower_char(s.last())
    }
}

/// ASCII letters and digits kept, every run of other characters one `-`.
pub open spec fn spec_dash_runs(s: Seq<char>) -> Seq<char>
    decreases s.len(),
{
    if s.len() == 0 {
        seq![]
    } else {
        let p = spec_dash_runs(s.drop_last());
        let c = s.last();
        if spec_is_ascii_alphanumeric(c) {
            p.push(c)
        } else if p.len() > 0 && p.last() == '-' {
            p
        } else {
            p.push('-')
        }
    }
}

/// The key of a workspace: lower case, ASCII letters and digits with single
/// dashes between, no dash at either end; `default` when nothing is left.
pub open spec fn spec_normalize_workspace_id(input: Seq<char>) -> Seq<char> {
    let t = spec_trim(input);
    let slug = spec_trim_end_while(
        spec_trim_start_while(spec_dash_runs(spec_lowercase_all(t)), |c: char| c == '-'),
        |c: char| c == '-',
    );
    if t.len() == 0 || slug.len() == 0 {
        "default"@
    } else {
        slug
    }
}

fn lowercase_all(s: &Vec<char>) -> (t: Vec<char>)
    ensures
        t@ == spec_lowercase_all(s@),
{
    let mut t: Vec<char> = Vec::new();
    let mut i: usize = 0;
    while i < s.len()
        invariant
            0 <= i <= s@.len(),
            t@ == spec_lowercase_all(s@.subrange(0, i as int)),
        decreases s.len() - i,
    {
        let l = char_to_lowercase(s[i]);
        push_chars(&mut t, &l);
        proof {
            assert(s@.subrange(0, i + 1).drop_last() =~= s@.subrange(0, i as int));
        }
        i = i + 1;
    }
    proof {
        assert(s@.subrange(0, s@.len() as int) =~= s@);
    }
    t
}

fn dash_runs(s: &Vec<char>) -> (t: Vec<char>)
    ensures
        t@ == spec_dash_runs(s@),
{
    let mut t: Vec<char> = Vec::new();
    let mut prev_dash = false;
    let mut i: usize = 0;
    while i < s.len()
        invariant
            0 <= i <= s@.len(),
            t@ == spec_dash_runs(s@.subrange(0, i as int)),
            prev_dash <==> (t@.len() > 0 && t@.last() == '-'),
        decreases s.len() - i,
    {
        let c = s[i];
        proof {
            assert(s@.subrange(0, i + 1).drop_last() =~= s@.subrange(0, i as int));
        }
        if is_ascii_alphanumeric(c) {
            t.push(c);
            prev_dash = false;
        } else if !prev_dash {
            t.push('-');
            prev_dash = true;
        }
        i = i + 1;
    }
    proof {
        assert(s@.subrange(0, s@.len() as int) =~= s@);
    }
    t
}

/// The key a workspace name or id is stored under.
pub fn normalize_workspace_id(input: &str) -> (key: String)
    ensures
        key@ == spec_normalize_workspace_id(input@),
{
    let t = trim(input);
    if t.as_str().unicode_len() == 0 {
        return "default".to_owned();
    }
    let tv = chars_of(t.as_str());
    let lower = lowercase_all(&tv);
    let runs = dash_runs(&lower);
    let front = trim_start_char(&runs, '-');
    let slug = trim_end_char(&front, '-');
    if slug.len() == 0 {
        return "default".to_owned();
    }
    string_from_chars(slug.as_slice())
}

/// No two dashes stand next to each other in `s`.
pub open spec fn spec_no_double_dash(s: Seq<char>) -> bool {
    forall|i: int, j: int| 0 <= i && j == i + 1 && j < s.len() ==> !(#[trigger] s[i] == '-' && #[trigger] s[j] == '-')
}

/// `s` holds no ASCII upper-case letter.
pub open spec fn spec_no_ascii_upper(s: Seq<char>) -> bool {
    forall|i: int| 0 <= i < s.len() ==> !('A' <= #[trigger] s[i] && s[i] <= 'Z')
}

/// The shape of every workspace key: not empty, ASCII letters, digits and
/// single dashes, no dash at either end.
pub open spec fn spec_key_shape(r: Seq<char>) -> bool {
    &&& r.len() > 0
    &&& r[0] != '-'
    &&& r.last() != '-'
    &&& spec_no_double_dash(r)
    &&& forall|i: int| 0 <= i < r.len() ==> spec_is_ascii_alphanumeric(#[trigger] r[i]) || r[i] == '-'
}

/// A workspace key in lower case: its letters are lower-case ASCII.
pub open spec fn spec_lower_key(r: Seq<char>) -> bool {
    spec_key_shape(r) && spec_no_ascii_upper(r)
}

proof fn lemma_dash_runs_shape(s: Seq<char>)
    ensures
        forall|i: int| 0 <= i < spec_dash_runs(s).len() ==> spec_is_ascii_alphanumeric(#[trigger] spec_dash_runs(s)[i])
            || spec_dash_runs(s)[i] == '-',
        spec_no_double_dash(spec_dash_runs(s)),
        spec_no_ascii_upper(s) ==> spec_no_ascii_upper(spec_dash_runs(s)),
        (forall|i: int| 0 <= i < s.len() ==> !spec_is_ascii_alphanumeric(#[trigger] s[i])) ==> forall|i: int|
            0 <= i < spec_dash_runs(s).len() ==> #[trigger] spec_dash_runs(s)[i] == '-',
    decreases s.len(),
{
    if s.len() > 0 {
        let q = s.drop_last();
        lemma_dash_runs_shape(q);
        assert(spec_no_ascii_upper(s) ==> spec_no_ascii_upper(q)) by {
            if spec_no_ascii_upper(s) {
                assert forall|i: int| 0 <= i < q.len() implies !('A' <= #[trigger] q[i] && q[i] <= 'Z') by {
                    assert(q[i] == s[i]);
                }
            }
        }
        assert((forall|i: int| 0 <= i < s.len() ==> !spec_is_ascii_alphanumeric(#[trigger] s[i])) ==> (forall|i: int|
            0 <= i < q.len() ==> !spec_is_ascii_alphanumeric(#[trigger] q[i]))) by {
            assert forall|i: int| 0 <= i < q.len() implies q[i] == s[i] by {}
        }
        if spec_no_ascii_upper(s) {
            assert(!('A' <= s[s.len() - 1] && s[s.len() - 1] <= 'Z'));
        }
        if forall|i: int| 0 <= i < s.len() ==> !spec_is_ascii_alphanumeric(#[trigger] s[i]) {
            assert(!spec_is_ascii_alphanumeric(s[s.len() - 1]));
        }
    }
}

proof fn lemma_dash_runs_of_key(s: Seq<char>)
    requires
        spec_no_double_dash(s),
        forall|i: int| 0 <= i < s.len() ==> spec_is_ascii_alphanumeric(#[trigger] s[i]) || s[i] == '-',
    ensures
        spec_dash_runs(s) == s,
    decreases s.len(),
{
    if s.len() > 0 {
        let q = s.drop_last();
        assert forall|i: int| 0 <= i < q.len() implies spec_is_ascii_alphanumeric(#[trigger] q[i]) || q[i] == '-' by {
            assert(q[i] == s[i]);
        }
        assert forall|i: int, j: int| 0 <= i && j == i + 1 && j < q.len() implies !(#[trigger] q[i] == '-' && #[trigger] q[j] == '-') by {
            assert(q[i] == s[i] && q[j] == s[j]);
        }
        lemma_dash_runs_of_key(q);
        if q.len() > 0 {
            assert(q.last() == s[s.len() - 2]);
            assert(!(s[s.len() - 2] == '-' && s[s.len() - 1] == '-'));
        }
        assert(s =~= q.push(s.last()));
    }
}

proof fn lemma_lowercase_all_of_lower_ascii(s: Seq<char>)
    requires
        forall|i: int| 0 <= i < s.len() ==> (#[trigger] s[i] as u32) < 128 && !('A' <= s[i] && s[i] <= 'Z'),
    ensures
        spec_lowercase_all(s) == s,
    decreases s.len(),
{
    if s.len() > 0 {
        let q = s.drop_last();
        assert forall|i: int| 0 <= i < q.len() implies (#[trigger] q[i] as u32) < 128 && !('A' <= q[i] && q[i] <= 'Z') by {
            assert(q[i] == s[i]);
        }
        lemma_lowercase_all_of_lower_ascii(q);
        assert((s.last() as u32) < 128);
        assert(s =~= q + seq![s.last()]);
    }
}

/// The laws of workspace keys. A key is never empty and is made of ASCII
/// letters, digits and single dashes, with no dash at either end; a name
/// whose lower case holds no ASCII letter or digit becomes `default`. Where
/// lower-casing the trimmed name leaves no ASCII upper-case letter (as for
/// any ASCII name), the key is in lower case and is its own key.
pub proof fn lemma_workspace_key_laws(input: Seq<char>)
    ensures
        spec_key_shape(spec_normalize_workspace_id(input)),
        (forall|i: int| 0 <= i < spec_lowercase_all(spec_trim(input)).len()
            ==> !spec_is_ascii_alphanumeric(#[trigger] spec_lowercase_all(spec_trim(input))[i]))
            ==> spec_normalize_workspace_id(input) == "default"@,
        spec_no_ascii_upper(spec_lowercase_all(spec_trim(input))) ==> spec_lower_key(spec_normalize_workspace_id(input))
            && spec_normalize_workspace_id(spec_normalize_workspace_id(input)) == spec_normalize_workspace_id(input),
{
    reveal_strlit("default");
    let dash = |c: char| c == '-';
    let t = spec_trim(input);
    let low = spec_lowercase_all(t);
    let d = spec_dash_runs(low);
    lemma_dash_runs_shape(low);
    let k = lemma_trim_start_while_split(d, dash);
    let f = spec_trim_start_while(d, dash);
    let m = lemma_trim_end_while_split(f, dash);
    let slug = spec_trim_end_while(f, dash);
    assert(slug =~= d.subrange(k, k + m));
    assert forall|i: int| 0 <= i < slug.len() implies slug[i] == d[k + i] by {}
    let r = spec_normalize_workspace_id(input);
    if t.len() == 0 || slug.len() == 0 {
        assert(r == "default"@);
        assert(spec_lower_key(r));
        lemma_default_is_own_key();
    } else {
        assert(r == slug);
        assert(f[0] == d[k]);
        assert(!dash(slug[0]));
        assert(!dash(f[m - 1]));
        assert forall|i: int, j: int| 0 <= i && j == i + 1 && j < slug.len() implies !(#[trigger] slug[i] == '-' && #[trigger] slug[j] == '-') by {
            assert(slug[i] == d[k + i] && slug[j] == d[k + j]);
        }
        assert forall|i: int| 0 <= i < slug.len() implies spec_is_ascii_alphanumeric(#[trigger] slug[i]) || slug[i] == '-' by {
            assert(slug[i] == d[k + i]);
        }
        assert(spec_key_shape(r));
        if forall|i: int| 0 <= i < low.len() ==> !spec_is_ascii_alphanumeric(#[trigger] low[i]) {
            assert(dash(d[k]));
        }
        if spec_no_ascii_upper(low) {
            assert forall|i: int| 0 <= i < slug.len() implies !('A' <= #[trigger] slug[i] && slug[i] <= 'Z') by {
                assert(slug[i] == d[k + i]);
            }
            lemma_key_is_own_key(slug);
        }
    }
}

proof fn lemma_default_is_own_key()
    ensures
        spec_normalize_workspace_id("default"@) == "default"@,
{
    reveal_strlit("default");
    let s = "default"@;
    assert(spec_lower_key(s));
    lemma_key_is_own_key(s);
}

/// A lower-case workspace key is its own key.
proof fn lemma_key_is_own_key(r: Seq<char>)
    requires
        spec_lower_key(r),
    ensures
        spec_normalize_workspace_id(r) == r,
{
    let dash = |c: char| c == '-';
    assert forall|j: int| 0 <= j < r.len() implies !spec_is_whitespace(#[trigger] r[j]) by {}
    lemma_trim_without_whitespace(r);
    assert forall|i: int| 0 <= i < r.len() implies (#[trigger] r[i] as u32) < 128 && !('A' <= r[i] && r[i] <= 'Z') by {}
    lemma_lowercase_all_of_lower_ascii(r);
    lemma_dash_runs_of_key(r);
    assert(spec_trim_start_while(r, dash) == r);
    assert(spec_trim_end_while(r, dash) == r);
}

/// The end of the word that starts at `i`: the next `-` or `_`, or the end.
pub open spec fn spec_word_end(s: Seq<char>, i: int) -> int
    decreases s.len() - i,
{
    if i >= s.len() {
        s.len() as int
    } else if s[i] == '-' || s[i] == '_' {
        i
    } else {
        spec_word_end(s, i + 1)
    }
}

/// The end of the word at `i` lies between `i` and the end of `s`.
pub proof fn lemma_word_end_bounds(s: Seq<char>, i: int)
    requires
        0 <= i <= s.len(),
    ensures
        i <= spec_word_end(s, i) <= s.len(),
    decreases s.len() - i,
{
    if i < s.len() && !(s[i] == '-' || s[i] == '_') {
        lemma_word_end_bounds(s, i + 1);
    }
}

/// The non-empty parts of `s` between `-` and `_`, from position `i` on.
pub open spec fn spec_words_from(s: Seq<char>, i: int) -> Seq<Seq<char>>
    decreases s.len() + 1 - i,
{
    if i < 0 || i >= s.len() {
        seq![]
    } else {
        proof {
            lemma_word_end_bounds(s, i);
        }
        let e = spec_word_end(s, i);
        if e == i {
            spec_words_from(s, i + 1)
        } else {
            seq![s.subrange(i, e)] + spec_words_from(s, e + 1)
        }
    }
}

/// A word with its first character upper-cased as `char::to_uppercase` does.
pub open spec fn spec_capitalize_word(w: Seq<char>) -> Seq<char> {
    if w.len() == 0 {
        seq![]
    } else {
        spec_upper_char(w[0]) + w.drop_first()
    }
}

/// Upper-cases the first character of a word.
pub fn capitalize_word(word: &str) -> (r: String)
    ensures
        r@ == spec_capitalize_word(word@),
{
    let v = chars_of(word);
    if v.len() == 0 {
        return String::new();
    }
    let mut out = char_to_uppercase(v[0]);
    let rest = slice_chars(&v, 1, v.len());
    push_chars(&mut out, &rest);
    proof {
        assert(v@.drop_first() =~= v@.subrange(1, v@.len() as int));
    }
    string_from_chars(out.as_slice())
}

/// The capitalized words of a sequence of words.
pub open spec fn spec_capitalized(words: Seq<Seq<char>>) -> Seq<Seq<char>> {
    words.map_values(|w: Seq<char>| spec_capitalize_word(w))
}

/// The display name of a workspace key: its words, split at `-` and `_`,
/// capitalized and joined with spaces; `Default` for a blank key.
pub open spec fn spec_default_workspace_display_name(workspace_id: Seq<char>) -> Seq<char> {
    let t = spec_trim(workspace_id);
    if t.len() == 0 {
        "Default"@
    } else {
        spec_join(spec_capitalized(spec_words_from(t, 0)), " "@)
    }
}

/// A word of a lower-case workspace key: ASCII lower-case letters and digits.
pub open spec fn spec_key_word(w: Seq<char>) -> bool {
    w.len() > 0 && forall|k: int| 0 <= k < w.len() ==> ('a' <= #[trigger] w[k] && w[k] <= 'z') || ('0' <= w[k] && w[k] <= '9')
}

proof fn lemma_join_front_with(ws: Seq<Seq<char>>, sep: Seq<char>)
    requires
        ws.len() >= 2,
    ensures
        spec_join(ws, sep) == ws[0] + sep + spec_join(ws.drop_first(), sep),
    decreases ws.len(),
{
    let a = ws.drop_last();
    let b = ws.drop_first();
    if ws.len() > 2 {
        lemma_join_front_with(a, sep);
        assert(a.drop_first() =~= b.drop_last());
        assert(a[0] == ws[0]);
        assert(b.last() == ws.last());
        assert(spec_join(b, sep) == spec_join(b.drop_last(), sep) + sep + b.last());
        assert(spec_join(ws, sep) =~= ws[0] + sep + spec_join(b, sep));
    } else {
        assert(spec_join(b, sep) == b[0]);
        assert(spec_join(a, sep) == a[0]);
        assert(spec_join(ws, sep) =~= ws[0] + sep + spec_join(b, sep));
    }
}

/// The words of a lower-case key, from a word start `i`, are key words that
/// joined with dashes give the rest of the key.
proof fn lemma_key_words_from(s: Seq<char>, i: int)
    requires
        spec_lower_key(s),
        0 <= i < s.len(),
        i == 0 || s[i - 1] == '-',
    ensures
        spec_words_from(s, i).len() > 0,
        forall|k: int| 0 <= k < spec_words_from(s, i).len() ==> spec_key_word(#[trigger] spec_words_from(s, i)[k]),
        spec_join(spec_words_from(s, i), "-"@) == s.subrange(i, s.len() as int),
    decreases s.len() - i,
{
    reveal_strlit("-");
    if i > 0 {
        assert(!(s[i - 1] == '-' && s[i] == '-'));
    }
    assert(s[i] != '-');
    lemma_word_end_bounds(s, i);
    let e = spec_word_end(s, i);
    lemma_word_end_chars(s, i);
    let w = s.subrange(i, e);
    assert(e > i);
    assert(spec_key_word(w)) by {
        assert forall|k: int| 0 <= k < w.len() implies ('a' <= #[trigger] w[k] && w[k] <= 'z') || ('0' <= w[k] && w[k] <= '9') by {
            assert(w[k] == s[i + k]);
            assert(s[i + k] != '-' && s[i + k] != '_');
            assert(spec_is_ascii_alphanumeric(s[i + k]) || s[i + k] == '-');
            assert(!('A' <= s[i + k] && s[i + k] <= 'Z'));
        }
    }
    let all = spec_words_from(s, i);
    let rest = spec_words_from(s, e + 1);
    assert(all == seq![w] + rest);
    if e == s.len() {
        assert(rest =~= Seq::<Seq<char>>::empty());
        assert(all =~= seq![w]);
        assert(spec_join(all, "-"@) == w);
    } else {
        assert(s[e] == '-' || s[e] == '_');
        assert(s[e] == '-');
        assert(e + 1 < s.len());
        lemma_key_words_from(s, e + 1);
        lemma_join_front_with(all, "-"@);
        assert(all.drop_first() =~= rest);
        assert(spec_join(all, "-"@) =~= s.subrange(i, s.len() as int));
    }
    assert forall|k: int| 0 <= k < all.len() implies spec_key_word(#[trigger] all[k]) by {
        if k > 0 {
            assert(all[k] == rest[k - 1]);
        }
    }
}

proof fn lemma_word_end_chars(s: Seq<char>, i: int)
    requires
        0 <= i <= s.len(),
    ensures
        forall|k: int| i <= k < spec_word_end(s, i) ==> #[trigger] s[k] != '-' && s[k] != '_',
        spec_word_end(s, i) < s.len() ==> (s[spec_word_end(s, i)] == '-' || s[spec_word_end(s, i)] == '_'),
    decreases s.len() - i,
{
    if i < s.len() && !(s[i] == '-' || s[i] == '_') {
        lemma_word_end_chars(s, i + 1);
    }
}

proof fn lemma_lowercase_concat(a: Seq<char>, b: Seq<char>)
    ensures
        spec_lowercase_all(a + b) == spec_lowercase_all(a) + spec_lowercase_all(b),
    decreases b.len(),
{
    if b.len() > 0 {
        lemma_lowercase_concat(a, b.drop_last());
        assert((a + b).drop_last() =~= a + b.drop_last());
        assert((a + b).last() == b.last());
        assert(spec_lowercase_all(a + b) =~= spec_lowercase_all(a) + spec_lowercase_all(b));
    } else {
        assert(a + b =~= a);
        assert(spec_lowercase_all(a) + spec_lowercase_all(b) =~= spec_lowercase_all(a));
    }
}

proof fn lemma_dash_runs_append_alnum(x: Seq<char>, w: Seq<char>)
    requires
        forall|k: int| 0 <= k < w.len() ==> spec_is_ascii_alphanumeric(#[trigger] w[k]),
    ensures
        spec_dash_runs(x + w) == spec_dash_runs(x) + w,
    decreases w.len(),
{
    if w.len() > 0 {
        let v = w.drop_last();
        assert forall|k: int| 0 <= k < v.len() implies spec_is_ascii_alphanumeric(#[trigger] v[k]) by {
            assert(v[k] == w[k]);
        }
        lemma_dash_runs_append_alnum(x, v);
        assert((x + w).drop_last() =~= x + v);
        assert((x + w).last() == w.last());
        assert(spec_is_ascii_alphanumeric(w[w.len() - 1]));
        assert(spec_dash_runs(x + w) =~= spec_dash_runs(x) + w);
    } else {
        assert(x + w =~= x);
        assert(spec_dash_runs(x) + w =~= spec_dash_runs(x));
    }
}

/// Capitalized words joined with spaces, lower-cased and with each run of
/// other characters made one dash, are the words joined with dashes.
proof fn lemma_display_words_back(ws: Seq<Seq<char>>)
    requires
        ws.len() > 0,
        forall|k: int| 0 <= k < ws.len() ==> spec_key_word(#[trigger] ws[k]),
    ensures
        spec_lowercase_all(spec_join(spec_capitalized(ws), " "@)) == spec_join(ws, " "@),
        spec_dash_runs(spec_join(ws, " "@)) == spec_join(ws, "-"@),
        spec_join(ws, "-"@).len() > 0,
        spec_is_ascii_alphanumeric(spec_join(ws, "-"@).last()),
    decreases ws.len(),
{
    reveal_strlit(" ");
    reveal_strlit("-");
    let cw = spec_capitalized(ws);
    let w = ws.last();
    let c = cw.last();
    assert(spec_key_word(w));
    assert(c == spec_capitalize_word(w));
    lemma_capitalized_back(w);
    assert forall|k: int| 0 <= k < w.len() implies spec_is_ascii_alphanumeric(#[trigger] w[k]) by {}
    if ws.len() == 1 {
        assert(spec_join(cw, " "@) == c);
        assert(spec_join(ws, " "@) == w);
        assert(spec_join(ws, "-"@) == w);
        lemma_dash_runs_append_alnum(Seq::empty(), w);
        assert(Seq::<char>::empty() + w =~= w);
        assert(spec_dash_runs(Seq::<char>::empty()) + w =~= w);
    } else {
        let vs = ws.drop_last();
        assert forall|k: int| 0 <= k < vs.len() implies spec_key_word(#[trigger] vs[k]) by {
            assert(vs[k] == ws[k]);
        }
        lemma_display_words_back(vs);
        assert(cw.drop_last() =~= spec_capitalized(vs));
        let jc = spec_join(spec_capitalized(vs), " "@);
        let js = spec_join(vs, " "@);
        let jd = spec_join(vs, "-"@);
        assert(spec_join(cw, " "@) == jc + " "@ + c);
        assert(spec_join(ws, " "@) == js + " "@ + w);
        assert(spec_join(ws, "-"@) == jd + "-"@ + w);
        lemma_lowercase_concat(jc + " "@, c);
        lemma_lowercase_concat(jc, " "@);
        assert forall|k: int| 0 <= k < " "@.len() implies (#[trigger] " "@[k] as u32) < 128 && !('A' <= " "@[k] && " "@[k] <= 'Z') by {}
        lemma_lowercase_all_of_lower_ascii(" "@);
        // dash runs of js + " " + w
        let x = js + " "@;
        assert(x.drop_last() =~= js);
        assert(x.last() == ' ');
        assert(spec_dash_runs(x) == jd.push('-'));
        lemma_dash_runs_append_alnum(x, w);
        assert(jd.push('-') + w =~= jd + "-"@ + w);
        assert((jd + "-"@ + w).last() == w.last());
    }
}

proof fn lemma_capitalized_back(w: Seq<char>)
    requires
        spec_key_word(w),
    ensures
        spec_lowercase_all(spec_capitalize_word(w)) == w,
        spec_capitalize_word(w).len() > 0,
        !spec_is_whitespace(spec_capitalize_word(w)[0]),
{
    let c = w[0];
    let u = spec_upper_char(c);
    assert(('a' <= c && c <= 'z') || ('0' <= c && c <= '9'));
    let r = w.drop_first();
    assert forall|k: int| 0 <= k < r.len() implies (#[trigger] r[k] as u32) < 128 && !('A' <= r[k] && r[k] <= 'Z') by {
        assert(r[k] == w[k + 1]);
    }
    lemma_lowercase_all_of_lower_ascii(r);
    lemma_lowercase_concat(u, r);
    assert(u.len() == 1);
    assert(u.drop_last() =~= Seq::<char>::empty());
    if 'a' <= c && c <= 'z' {
        let n = c as u32;
        let up = ((n - 32) as char);
        assert(up as u32 == n - 32);
        assert('A' <= up && up <= 'Z');
        assert(((((up as u32) + 32) as char) as u32) == n);
        assert((((up as u32) + 32) as char) == c);
        assert(u[0] == up);
        assert(spec_lower_char(up) =~= seq![c]);
    } else {
        assert(u =~= seq![c]);
    }
    assert(spec_lowercase_all(u) == spec_lowercase_all(u.drop_last()) + spec_lower_char(u.last()));
    assert(spec_lowercase_all(u) =~= seq![c]);
    assert(seq![c] + r =~= w);
}

/// A workspace's display name leads back to its key: the key of the display
/// name of a lower-case workspace key is that key (`acme-client` is shown as
/// `Acme Client`, whose key is `acme-client`).
pub proof fn lemma_display_name_round_trip(id: Seq<char>)
    requires
        spec_lower_key(id),
    ensures
        spec_normalize_workspace_id(spec_default_workspace_display_name(id)) == id,
{
    reveal_strlit(" ");
    assert forall|j: int| 0 <= j < id.len() implies !spec_is_whitespace(#[trigger] id[j]) by {}
    lemma_trim_without_whitespace(id);
    lemma_key_words_from(id, 0);
    let ws = spec_words_from(id, 0);
    assert(id.subrange(0, id.len() as int) =~= id);
    assert(spec_join(ws, "-"@) == id);
    let cw = spec_capitalized(ws);
    let d = spec_join(cw, " "@);
    assert(spec_default_workspace_display_name(id) == d);
    lemma_display_words_back(ws);
    // d starts and ends without whitespace
    lemma_capitalized_back(ws[0]);
    lemma_capitalized_back(ws.last());
    if ws.len() >= 2 {
        lemma_join_front_with(cw, " "@);
        assert(d[0] == cw[0][0]);
    } else {
        assert(d == cw[0]);
    }
    assert(d.len() > 0);
    assert(d.last() == cw.last().last()) by {
        if ws.len() >= 2 {
            assert(d == spec_join(cw.drop_last(), " "@) + " "@ + cw.last());
        }
    }
    let lw = ws.last();
    assert(cw.last() == spec_capitalize_word(lw));
    assert(spec_key_word(lw));
    assert(!spec_is_whitespace(cw.last().last())) by {
        let cl = cw.last();
        if cl.len() == 1 {
            assert(cl.last() == cl[0]);
        } else {
            assert(cl.last() == lw.last());
            assert(lw.last() == lw[lw.len() - 1]);
        }
    }
    lemma_trim_start_at(d, 0);
    lemma_trim_end_at(d, d.len() as int);
    assert(d.subrange(0, d.len() as int) =~= d);
    assert(spec_trim(d) == d);
    assert(spec_lowercase_all(d) == spec_join(ws, " "@));
    assert(spec_dash_runs(spec_lowercase_all(d)) == id);
    let dash = |c: char| c == '-';
    assert(spec_trim_start_while(id, dash) == id);
    assert(spec_trim_end_while(id, dash) == id);
}

fn word_end(s: &Vec<char>, i: usize) -> (e: usize)
    requires
        i <= s@.len(),
    ensures
        e == spec_word_end(s@, i as int),
{
    let mut j = i;
    while j < s.len() && s[j] != '-' && s[j] != '_'
        invariant
            i <= j <= s@.len(),
            spec_word_end(s@, j as int) == spec_word_end(s@, i as int),
        decreases s.len() - j,
    {
        j = j + 1;
    }
    j
}

/// The display name derived from a workspace key.
pub fn default_workspace_display_name(workspace_id: &str) -> (name: String)
    ensures
        name@ == spec_default_workspace_display_name(workspace_id@),
{
    let t = trim(workspace_id);
    if t.as_str().unicode_len() == 0 {
        return "Default".to_owned();
    }
    let s = chars_of(t.as_str());
    let n = s.len();
    let mut words: Vec<String> = Vec::new();
    let mut i: usize = 0;
    while i < n
        invariant
            n == s@.len(),
            s@ == t@,
            spec_capitalized(spec_words_from(s@, 0)) == spec_string_views(words@)
                + spec_capitalized(spec_words_from(s@, i as int)),
        decreases n - i,
    {
        let e = word_end(&s, i);
        proof {
            lemma_word_end_bounds(s@, i as int);
        }
        if e == i {
            i = i + 1;
        } else {
            let w = slice_chars(&s, i, e);
            let ws = string_from_chars(w.as_slice());
            let cap = capitalize_word(ws.as_str());
            let ghost before = words@;
            words.push(cap);
            proof {
                lemma_string_views_push(before, cap);
                let rest = spec_words_from(s@, e + 1);
                assert(spec_words_from(s@, i as int) == seq![s@.subrange(i as int, e as int)]
                    + rest);
                assert(spec_capitalized(seq![s@.subrange(i as int, e as int)] + rest)
                    =~= seq![cap@] + spec_capitalized(rest));
                assert(spec_string_views(words@) + spec_capitalized(rest) =~= spec_string_views(
                    before,
                ) + (seq![cap@] + spec_capitalized(rest)));
            }
            if e < n {
                i = e + 1;
            } else {
                proof {
                    assert(spec_words_from(s@, e + 1) =~= spec_words_from(s@, n as int));
                }
                i = n;
            }
        }
    }
    proof {
        assert(spec_capitalized(spec_words_from(s@, i as int)) =~= Seq::<Seq<char>>::empty());
        assert(spec_string_views(words@) + Seq::<Seq<char>>::empty() =~= spec_string_views(words@));
    }
    join_lines(&words, " ")
}

/// The key of the selected workspace: `PUBLO_WORKSPACE` when set, else the
/// global config's `[workspace].default`, else `default`.
pub open spec fn spec_workspace_key(env: EnvSnapshot, global_default: Option<Seq<char>>) -> Seq<char> {
    match spec_set_trimmed(env.publo_workspace) {
        Some(t) => spec_normalize_workspace_id(t),
        None => match global_default {
            Some(d) => spec_normalize_workspace_id(d),
            None => "default"@,
        },
    }
}

/// The key of the selected workspace; `global_default` is the global
/// config's `[workspace].default`, when the file has one.
pub fn resolve_workspace_id(env: &EnvSnapshot, global_default: &Option<String>) -> (key: String)
    ensures
        key@ == spec_workspace_key(*env, opt_seq(*global_default)),
{
    match set_trimmed(&env.publo_workspace) {
        Some(t) => normalize_workspace_id(t.as_str()),
        None => match global_default {
            Some(d) => normalize_workspace_id(d.as_str()),
            None => "default".to_owned(),
        },
    }
}

/// The files and directories of one workspace.
#[derive(Debug)]
pub struct RuntimePaths {
    pub publo_home: String,
    pub global_config_path: String,
    pub workspace_key: String,
    pub workspace_dir: String,
    pub workspace_config_path: String,
    pub env_path: String,
    pub runtime_dir: String,
    pub db_default_path: String,
    pub publish_log_path: String,
    pub linkedin_oauth_state_path: String,
    pub x_oauth_state_path: String,
}

/// The layout of a workspace under Publo's home.
pub open spec fn spec_paths_for(
    paths: RuntimePaths,
    publo_home: Seq<char>,
    global_config_path: Seq<char>,
    workspace_key: Seq<char>,
    env: EnvSnapshot,
) -> bool {
    let workspace_dir = spec_path_join(spec_path_join(publo_home, "workspaces"@), workspace_key);
    let runtime_dir = spec_path_join(workspace_dir, "runtime"@);
    &&& paths.publo_home@ == publo_home
    &&& paths.global_config_path@ == global_config_path
    &&& paths.workspace_key@ == workspace_key
    &&& paths.workspace_dir@ == workspace_dir
    &&& paths.workspace_config_path@ == spec_path_join(workspace_dir, "config.toml"@)
    &&& paths.env_path@ == match env.publo_env {
        Some(e) => spec_absolutize_path(spec_expand_home_alias(spec_trim(e@), env), env),
        None => spec_path_join(workspace_dir, ".env"@),
    }
    &&& paths.runtime_dir@ == runtime_dir
    &&& paths.db_default_path@ == spec_path_join(workspace_dir, "publo.db"@)
    &&& paths.publish_log_path@ == spec_path_join(workspace_dir, "publish-log.jsonl"@)
    &&& paths.linkedin_oauth_state_path@ == spec_path_join(runtime_dir, "linkedin_oauth_state.json"@)
    &&& paths.x_oauth_state_path@ == spec_path_join(runtime_dir, "x_oauth_state.json"@)
}

/// The paths of the workspace `workspace_key` under `publo_home`.
pub fn resolve_runtime_paths_for_workspace_id(
    publo_home: String,
    global_config_path: String,
    workspace_key: String,
    env: &EnvSnapshot,
) -> (paths: RuntimePaths)
    ensures
        spec_paths_for(paths, publo_home@, global_config_path@, workspace_key@, *env),
{
    let workspaces = path_join(publo_home.as_str(), "workspaces");
    let workspace_dir = path_join(workspaces.as_str(), workspace_key.as_str());
    let workspace_config_path = path_join(workspace_dir.as_str(), "config.toml");
    let env_path = match &env.publo_env {
        Some(e) => {
            let t = trim(e.as_str());
            let x = expand_home_alias(t.as_str(), env);
            absolutize_path(x, env)
        },
        None => path_join(workspace_dir.as_str(), ".env"),
    };
    let runtime_dir = path_join(workspace_dir.as_str(), "runtime");
    let db_default_path = path_join(workspace_dir.as_str(), "publo.db");
    let publish_log_path = path_join(workspace_dir.as_str(), "publish-log.jsonl");
    let linkedin_oauth_state_path = path_join(runtime_dir.as_str(), "linkedin_oauth_state.json");
    let x_oauth_state_path = path_join(runtime_dir.as_str(), "x_oauth_state.json");
    RuntimePaths {
        publo_home,
        global_config_path,
        workspace_key,
        workspace_dir,
        workspace_config_path,
        env_path,
        runtime_dir,
        db_default_path,
        publish_log_path,
        linkedin_oauth_state_path,
        x_oauth_state_path,
    }
}

/// The paths of the selected workspace; `global_default` is the global
/// config's `[workspace].default`, when the file has one.
pub fn resolve_runtime_paths(env: &EnvSnapshot, global_default: &Option<String>) -> (paths: RuntimePaths)
    ensures
        spec_paths_for(
            paths,
            spec_publo_home(*env),
            spec_global_config_path(*env, spec_publo_home(*env)),
            spec_workspace_key(*env, opt_seq(*global_default)),
            *env,
        ),
{
    let home = resolve_publo_home(env);
    let global = resolve_global_config_path(env, home.as_str());
    let key = resolve_workspace_id(env, global_default);
    resolve_runtime_paths_for_workspace_id(home, global, key, env)
}

/// The paths of the workspace named `workspace_id`, whatever is selected.
pub fn resolve_runtime_paths_for_workspace(workspace_id: &str, env: &EnvSnapshot) -> (paths: RuntimePaths)
    ensures
        spec_paths_for(
            paths,
            spec_publo_home(*env),
            spec_global_config_path(*env, spec_publo_home(*env)),
            spec_normalize_workspace_id(workspace_id@),
            *env,
        ),
{
    let home = resolve_publo_home(env);
    let global = resolve_global_config_path(env, home.as_str());
    let key = normalize_workspace_id(workspace_id);
    resolve_runtime_paths_for_workspace_id(home, global, key, env)
}

/// Two sets of runtime paths that hold the same paths.
pub open spec fn spec_same_paths(a: RuntimePaths, b: RuntimePaths) -> bool {
    &&& a.publo_home@ == b.publo_home@
    &&& a.global_config_path@ == b.global_config_path@
    &&& a.workspace_key@ == b.workspace_key@
    &&& a.workspace_dir@ == b.workspace_dir@
    &&& a.workspace_config_path@ == b.workspace_config_path@
    &&& a.env_path@ == b.env_path@
    &&& a.runtime_dir@ == b.runtime_dir@
    &&& a.db_default_path@ == b.db_default_path@
    &&& a.publish_log_path@ == b.publish_log_path@
    &&& a.linkedin_oauth_state_path@ == b.linkedin_oauth_state_path@
    &&& a.x_oauth_state_path@ == b.x_oauth_state_path@
}

/// A workspace's key does not depend on blanks around its name.
pub proof fn lemma_normalize_ignores_outer_blanks(input: Seq<char>)
    ensures
        spec_normalize_workspace_id(spec_trim(input)) == spec_normalize_workspace_id(input),
{
    lemma_trim_idempotent(input);
}

/// Naming a workspace is selecting it: the paths of the workspace named
/// `id` (`resolve_runtime_paths_for_workspace`) are the paths resolved with
/// `PUBLO_WORKSPACE` set to `id` (`resolve_runtime_paths`), whatever the
/// global config's default workspace, when `id` is not blank; both are the
/// paths of the workspace whose key is `id`'s key.
pub proof fn lemma_named_workspace_paths_agree(
    id: Seq<char>,
    env: EnvSnapshot,
    global_default: Option<Seq<char>>,
    named: RuntimePaths,
    selected: RuntimePaths,
)
    requires
        spec_trim(id).len() > 0,
        env.publo_workspace matches Some(w) && w@ == id,
        spec_paths_for(
            named,
            spec_publo_home(env),
            spec_global_config_path(env, spec_publo_home(env)),
            spec_normalize_workspace_id(id),
            env,
        ),
        spec_paths_for(
            selected,
            spec_publo_home(env),
            spec_global_config_path(env, spec_publo_home(env)),
            spec_workspace_key(env, global_default),
            env,
        ),
    ensures
        spec_same_paths(named, selected),
        named.workspace_key@ == spec_normalize_workspace_id(id),
        named.workspace_dir@ == spec_path_join(
            spec_path_join(spec_publo_home(env), "workspaces"@),
            spec_normalize_workspace_id(id),
        ),
{
    lemma_normalize_ignores_outer_blanks(id);
}

/// A path written in a config file: `~` expanded, then taken from the
/// config file's directory unless absolute.
pub open spec fn spec_path_from_config(config_dir: Seq<char>, raw: Seq<char>, env: EnvSnapshot) -> Seq<char> {
    let expanded = spec_expand_home_alias(spec_trim(raw), env);
    if spec_path_is_absolute(expanded) {
        expanded
    } else {
        spec_path_join(config_dir, expanded)
    }
}

/// Resolves a path written in a config file.
pub fn resolve_path_from_config(config_dir: &str, raw: &str, env: &EnvSnapshot) -> (p: String)
    ensures
        p@ == spec_path_from_config(config_dir@, raw@, *env),
{
    let t = trim(raw);
    let expanded = expand_home_alias(t.as_str(), env);
    if path_is_absolute(expanded.as_str()) {
        return expanded;
    }
    path_join(config_dir, expanded.as_str())
}

/// A `[signature]` table of a config file.
#[derive(Debug)]
pub struct SignatureConfigFile {
    pub enabled: Option<bool>,
    pub text: Option<String>,
}

/// One layer of signature settings.
#[derive(Debug)]
pub struct SignatureLayer {
    pub enabled: Option<bool>,
    pub text: Option<String>,
}

/// What the library reads of the global `config.toml`.
#[derive(Debug)]
pub struct GlobalConfigFile {
    /// `[output].pretty_json`.
    pub pretty_json: Option<bool>,
    /// `[timeouts].connect_seconds`.
    pub connect_seconds: Option<u64>,
    /// `[timeouts].request_seconds`.
    pub request_seconds: Option<u64>,
    /// `[api].host`.
    pub api_host: Option<String>,
    /// `[api].port`.
    pub api_port: Option<u16>,
    /// `[workspace].default`.
    pub default_workspace: Option<String>,
}

/// What the library reads of a workspace's `config.toml`.
#[derive(Debug)]
pub struct WorkspaceFileConfig {
    /// `[workspace].id`.
    pub id: Option<String>,
    /// `[workspace].display_name`.
    pub display_name: Option<String>,
    /// `[output].pretty_json`.
    pub pretty_json: Option<bool>,
    /// `[timeouts].connect_seconds`.
    pub connect_seconds: Option<u64>,
    /// `[timeouts].request_seconds`.
    pub request_seconds: Option<u64>,
    /// `[signature]`.
    pub signature: Option<SignatureConfigFile>,
    /// `[platform.linkedin.signature]`.
    pub linkedin_signature: Option<SignatureConfigFile>,
    /// `[platform.x.signature]`.
    pub x_signature: Option<SignatureConfigFile>,
    /// `[media].lookup_paths`.
    pub media_lookup_paths: Option<Vec<String>>,
    /// `[db].path`.
    pub db_path: Option<String>,
    /// `[catalog].roots`.
    pub catalog_roots: Option<Vec<String>>,
    /// `[security].publish_cli_password`.
    pub publish_cli_password: Option<String>,
}

/// The effective configuration of a command.
#[derive(Debug)]
pub struct RuntimeConfig {
    pub workspace_id: String,
    pub pretty_json: bool,
    pub connect_timeout_seconds: u64,
    pub request_timeout_seconds: u64,
    pub global_signature: SignatureLayer,
    pub linkedin_signature: SignatureLayer,
    pub x_signature: SignatureLayer,
    pub media_lookup_paths: Vec<String>,
    pub db_path: String,
    pub api_host: String,
    pub api_port: u16,
    pub catalog_roots: Vec<String>,
    pub publish_cli_password: Option<String>,
    pub workspace_display_name: String,
    pub paths: RuntimePaths,
}

/// A signature table taken as a layer; a missing table sets nothing.
pub open spec fn spec_signature_layer(layer: SignatureLayer, cfg: Option<SignatureConfigFile>) -> bool {
    match cfg {
        Some(c) => layer.enabled == c.enabled && opt_seq(layer.text) == opt_seq(c.text),
        None => layer.enabled is None && layer.text is None,
    }
}

/// A signature table taken as a layer.
pub fn to_signature_layer(cfg: Option<&SignatureConfigFile>) -> (layer: SignatureLayer)
    ensures
        spec_signature_layer(
            layer,
            match cfg {
                Some(c) => Some(*c),
                None => None,
            },
        ),
{
    match cfg {
        Some(c) => SignatureLayer {
            enabled: c.enabled,
            text: match &c.text {
                Some(t) => Some(t.clone()),
                None => None,
            },
        },
        None => SignatureLayer { enabled: None, text: None },
    }
}

/// The first value that is set, else the default.
pub open spec fn spec_layered<T>(first: Option<T>, second: Option<T>, default: T) -> T {
    match first {
        Some(v) => v,
        None => match second {
            Some(v) => v,
            None => default,
        },
    }
}

/// The directory relative paths of a workspace config are taken from.
pub open spec fn spec_workspace_config_dir(paths: RuntimePaths) -> Seq<char> {
    match crate::paths::spec_path_parent(paths.workspace_config_path@) {
        Some(d) => d,
        None => paths.workspace_dir@,
    }
}

/// Each configured path resolved against the config directory.
pub open spec fn spec_paths_from_config(dir: Seq<char>, items: Seq<Seq<char>>, env: EnvSnapshot) -> Seq<Seq<char>> {
    items.map_values(|i: Seq<char>| spec_path_from_config(dir, i, env))
}

/// An optional list of strings, by view.
pub open spec fn opt_strings(o: Option<Vec<String>>) -> Option<Seq<Seq<char>>> {
    match o {
        Some(v) => Some(spec_string_views(v@)),
        None => None,
    }
}

/// The effective configuration: the workspace file over the global file over
/// the defaults for output and timeouts; the API address from the global file
/// only; signatures, media, database, catalog and password from the
/// workspace file only.
pub open spec fn spec_runtime_config(
    cfg: RuntimeConfig,
    paths: RuntimePaths,
    global: Option<GlobalConfigFile>,
    workspace: Option<WorkspaceFileConfig>,
    env: EnvSnapshot,
) -> bool {
    let g_pretty = match global { Some(g) => g.pretty_json, None => None };
    let g_connect = match global { Some(g) => g.connect_seconds, None => None };
    let g_request = match global { Some(g) => g.request_seconds, None => None };
    let g_host = match global { Some(g) => opt_seq(g.api_host), None => None };
    let g_port = match global { Some(g) => g.api_port, None => None };
    let w_pretty = match workspace { Some(w) => w.pretty_json, None => None };
    let w_connect = match workspace { Some(w) => w.connect_seconds, None => None };
    let w_request = match workspace { Some(w) => w.request_seconds, None => None };
    let w_id = match workspace { Some(w) => opt_seq(w.id), None => None };
    let w_name = match workspace { Some(w) => opt_seq(w.display_name), None => None };
    let w_sig = match workspace { Some(w) => w.signature, None => None };
    let w_li = match workspace { Some(w) => w.linkedin_signature, None => None };
    let w_x = match workspace { Some(w) => w.x_signature, None => None };
    let w_media = match workspace { Some(w) => opt_strings(w.media_lookup_paths), None => None };
    let w_db = match workspace { Some(w) => opt_seq(w.db_path), None => None };
    let w_roots = match workspace { Some(w) => opt_strings(w.catalog_roots), None => None };
    let w_pass = match workspace { Some(w) => opt_seq(w.publish_cli_password), None => None };
    let dir = spec_workspace_config_dir(paths);
    &&& cfg.paths == paths
    &&& cfg.workspace_id@ == match w_id { Some(i) => i, None => paths.workspace_key@ }
    &&& cfg.pretty_json == spec_layered(w_pretty, g_pretty, false)
    &&& cfg.connect_timeout_seconds == spec_layered(w_connect, g_connect, 10u64)
    &&& cfg.request_timeout_seconds == spec_layered(w_request, g_request, 30u64)
    &&& cfg.api_host@ == spec_layered(g_host, None, "127.0.0.1"@)
    &&& cfg.api_port == spec_layered(g_port, None, 8787u16)
    &&& spec_signature_layer(cfg.global_signature, w_sig)
    &&& spec_signature_layer(cfg.linkedin_signature, w_li)
    &&& spec_signature_layer(cfg.x_signature, w_x)
    &&& spec_string_views(cfg.media_lookup_paths@) == match w_media {
        Some(items) => spec_paths_from_config(dir, items, env),
        None => Seq::empty(),
    }
    &&& cfg.db_path@ == match w_db {
        Some(raw) => spec_path_from_config(dir, raw, env),
        None => paths.db_default_path@,
    }
    &&& spec_string_views(cfg.catalog_roots@) == match w_roots {
        Some(items) => spec_paths_from_config(dir, items, env),
        None => Seq::empty(),
    }
    &&& opt_seq(cfg.publish_cli_password) == w_pass
    &&& cfg.workspace_display_name@ == match w_name {
        Some(n) => if spec_trim(n).len() > 0 {
            n
        } else {
            spec_default_workspace_display_name(paths.workspace_key@)
        },
        None => spec_default_workspace_display_name(paths.workspace_key@),
    }
}

fn paths_from_config(dir: &str, items: &Vec<String>, env: &EnvSnapshot) -> (r: Vec<String>)
    ensures
        spec_string_views(r@) == spec_paths_from_config(dir@, spec_string_views(items@), *env),
{
    let ghost target = spec_paths_from_config(dir@, spec_string_views(items@), *env);
    let mut r: Vec<String> = Vec::new();
    let mut i: usize = 0;
    while i < items.len()
        invariant
            0 <= i <= items@.len(),
            target == spec_paths_from_config(dir@, spec_string_views(items@), *env),
            spec_string_views(r@) == target.subrange(0, i as int),
        decreases items.len() - i,
    {
        let p = resolve_path_from_config(dir, items[i].as_str(), env);
        let ghost before = r@;
        r.push(p);
        proof {
            lemma_string_views_push(before, p);
            assert(target.subrange(0, i + 1) =~= target.subrange(0, i as int).push(p@));
        }
        i = i + 1;
    }
    proof {
        assert(target.subrange(0, items@.len() as int) =~= target);
    }
    r
}

fn no_paths() -> (r: Vec<String>)
    ensures
        spec_string_views(r@) == Seq::<Seq<char>>::empty(),
{
    let r: Vec<String> = Vec::new();
    proof {
        assert(spec_string_views(r@) =~= Seq::<Seq<char>>::empty());
    }
    r
}

fn clone_opt_string(o: &Option<String>) -> (r: Option<String>)
    ensures
        opt_seq(r) == opt_seq(*o),
{
    match o {
        Some(s) => Some(s.clone()),
        None => None,
    }
}

/// The effective configuration of the workspace at `paths`, from the parsed
/// global and workspace config files (`None` where a file is missing or does
/// not parse).
pub fn load_config(
    paths: RuntimePaths,
    global: &Option<GlobalConfigFile>,
    workspace: &Option<WorkspaceFileConfig>,
    env: &EnvSnapshot,
) -> (cfg: RuntimeConfig)
    ensures
        spec_runtime_config(cfg, paths, *global, *workspace, *env),
{
    let g_pretty = match global { Some(g) => g.pretty_json, None => None };
    let g_connect = match global { Some(g) => g.connect_seconds, None => None };
    let g_request = match global { Some(g) => g.request_seconds, None => None };
    let g_port = match global { Some(g) => g.api_port, None => None };
    let w_pretty = match workspace { Some(w) => w.pretty_json, None => None };
    let w_connect = match workspace { Some(w) => w.connect_seconds, None => None };
    let w_request = match workspace { Some(w) => w.request_seconds, None => None };
    let pretty_json = match w_pretty {
        Some(v) => v,
        None => match g_pretty {
            Some(v) => v,
            None => false,
        },
    };
    let connect_timeout_seconds = match w_connect {
        Some(v) => v,
        None => match g_connect {
            Some(v) => v,
            None => 10,
        },
    };
    let request_timeout_seconds = match w_request {
        Some(v) => v,
        None => match g_request {
            Some(v) => v,
            None => 30,
        },
    };
    let api_host = match global {
        Some(g) => match &g.api_host {
            Some(h) => h.clone(),
            None => "127.0.0.1".to_owned(),
        },
        None => "127.0.0.1".to_owned(),
    };
    let api_port = match g_port {
        Some(p) => p,
        None => 8787,
    };
    let global_signature = to_signature_layer(
        match workspace {
            Some(w) => w.signature.as_ref(),
            None => None,
        },
    );
    let linkedin_signature = to_signature_layer(
        match workspace {
            Some(w) => w.linkedin_signature.as_ref(),
            None => None,
        },
    );
    let x_signature = to_signature_layer(
        match workspace {
            Some(w) => w.x_signature.as_ref(),
            None => None,
        },
    );
    let dir = match crate::paths::path_parent(paths.workspace_config_path.as_str()) {
        Some(d) => d,
        None => paths.workspace_dir.clone(),
    };
    let media_lookup_paths = match workspace {
        Some(w) => match &w.media_lookup_paths {
            Some(items) => paths_from_config(dir.as_str(), items, env),
            None => no_paths(),
        },
        None => no_paths(),
    };
    let db_path = match workspace {
        Some(w) => match &w.db_path {
            Some(raw) => resolve_path_from_config(dir.as_str(), raw.as_str(), env),
            None => paths.db_default_path.clone(),
        },
        None => paths.db_default_path.clone(),
    };
    let catalog_roots = match workspace {
        Some(w) => match &w.catalog_roots {
            Some(items) => paths_from_config(dir.as_str(), items, env),
            None => no_paths(),
        },
        None => no_paths(),
    };
    let publish_cli_password = match workspace {
        Some(w) => clone_opt_string(&w.publish_cli_password),
        None => None,
    };
    let workspace_id = match workspace {
        Some(w) => match &w.id {
            Some(i) => i.clone(),
            None => paths.workspace_key.clone(),
        },
        None => paths.workspace_key.clone(),
    };
    let workspace_display_name = match workspace {
        Some(w) => match &w.display_name {
            Some(n) => {
                let t = trim(n.as_str());
                if t.as_str().unicode_len() > 0 {
                    n.clone()
                } else {
                    default_workspace_display_name(paths.workspace_key.as_str())
                }
            },
            None => default_workspace_display_name(paths.workspace_key.as_str()),
        },
        None => default_workspace_display_name(paths.workspace_key.as_str()),
    };
    RuntimeConfig {
        workspace_id,
        pretty_json,
        connect_timeout_seconds,
        request_timeout_seconds,
        global_signature,
        linkedin_signature,
        x_signature,
        media_lookup_paths,
        db_path,
        api_host,
        api_port,
        catalog_roots,
        publish_cli_password,
        workspace_display_name,
        paths,
    }
}

} // verus!
