//! Creating and editing a workspace's files: the config templates, switching
//! the default workspace, the workspace identity line, and `.env` values.
use vstd::prelude::*;

use crate::chars::{chars_of, str_eq, string_from_chars};
use crate::errors::{is_validation, opt_seq, validation, AppError};
use crate::lines::{
    join_lines, lemma_join_front_sep, lemma_lines_of_joined, lemma_lines_shape, replace_all, spec_is_line,
    spec_join, spec_lines, spec_replace, split_lines,
};
use crate::note::{lemma_string_views_push, spec_string_views};
use crate::text::{
    concat2, concat3, contains, lemma_trim_end_at, lemma_trim_start_at, lemma_trim_without_whitespace,
    spec_contains, spec_find_from, spec_matches_at, spec_starts_with, spec_trim, spec_trim_end_while,
    spec_trim_start_while, trim, trim_end_char,
};

verus! {

/// The global config a new home starts from.
pub open spec fn spec_global_config_base() -> Seq<char> {
    "# Publo global configuration.\n\n[workspace]\ndefault = \"default\"\n\n[output]\npretty_json = false\n\n[timeouts]\nconnect_seconds = 10\nrequest_seconds = 30\n\n[api]\nhost = \"127.0.0.1\"\nport = 8787\n"@
}

/// The workspace config a new workspace starts from.
pub open spec fn spec_workspace_config_base() -> Seq<char> {
    "# Publo workspace configuration.\n\n[workspace]\ndisplay_name = \"Default\"\n\n[signature]\nenabled = false\n# text = \"\\n[Sent from publo]\"\n\n[platform.linkedin.signature]\nenabled = true\n\n[platform.x.signature]\nenabled = false\n\n[media]\nlookup_paths = []\n\n[catalog]\nroots = []\n\n[security]\npublish_cli_password = \"\"\n"@
}

/// The `.env.example` of a new workspace.
pub open spec fn spec_workspace_env_example() -> Seq<char> {
    "# LinkedIn app credentials/settings\nLINKEDIN_CLIENT_ID=\nLINKEDIN_CLIENT_SECRET=\nLINKEDIN_REDIRECT_URI=http://localhost:8788/callback\nLINKEDIN_SCOPES='w_member_social openid profile'\nLINKEDIN_API_VERSION=202607\n\n# LinkedIn runtime auth values\nLINKEDIN_ACCESS_TOKEN=\nLINKEDIN_REFRESH_TOKEN=\nLINKEDIN_ACCESS_TOKEN_EXPIRES_IN=\nLINKEDIN_REFRESH_TOKEN_EXPIRES_IN=\nLINKEDIN_AUTHOR_URN=urn:li:person:\n\n# X app credentials/settings\nX_CLIENT_ID=\nX_CLIENT_SECRET=\nX_REDIRECT_URI=http://127.0.0.1:8789/callback\nX_SCOPES='tweet.read tweet.write users.read media.write offline.access'\n\n# X runtime auth values\nX_ACCESS_TOKEN=\nX_REFRESH_TOKEN=\nX_ACCESS_TOKEN_EXPIRES_IN=\nX_TOKEN_TYPE=\n\n# Substack Notes browser-session authentication\nSUBSTACK_SESSION_TOKEN=\nSUBSTACK_PUBLICATION_URL=https://yourname.substack.com\n"@
}

/// The global config of a new home whose default workspace is `default_workspace_id`.
pub open spec fn spec_global_config_template(default_workspace_id: Seq<char>) -> Seq<char> {
    if default_workspace_id == "default"@ {
        spec_global_config_base()
    } else {
        spec_replace(
            spec_global_config_base(),
            "default = \"default\""@,
            "default = \""@ + default_workspace_id + "\""@,
        )
    }
}

/// The global config of a new home.
pub fn global_config_template(default_workspace_id: &str) -> (t: String)
    ensures
        t@ == spec_global_config_template(default_workspace_id@),
{
    let base = "# Publo global configuration.\n\n[workspace]\ndefault = \"default\"\n\n[output]\npretty_json = false\n\n[timeouts]\nconnect_seconds = 10\nrequest_seconds = 30\n\n[api]\nhost = \"127.0.0.1\"\nport = 8787\n";
    if str_eq(default_workspace_id, "default") {
        return base.to_owned();
    }
    let line = concat3("default = \"", default_workspace_id, "\"");
    replace_all(base, "default = \"default\"", line.as_str())
}

/// The workspace config of a new workspace: its identity line right under
/// `[workspace]`, and its display name with `"` escaped.
pub open spec fn spec_workspace_config_template(workspace_id: Seq<char>, display_name: Seq<char>) -> Seq<char> {
    spec_replace(
        spec_replace(
            spec_workspace_config_base(),
            "[workspace]\n"@,
            "[workspace]\nid = \""@ + workspace_id + "\"\n"@,
        ),
        "display_name = \"Default\""@,
        "display_name = \""@ + spec_replace(display_name, "\""@, "\\\""@) + "\""@,
    )
}

/// The workspace config of a new workspace.
pub fn workspace_config_template(workspace_id: &str, display_name: &str) -> (t: String)
    ensures
        t@ == spec_workspace_config_template(workspace_id@, display_name@),
{
    let base = "# Publo workspace configuration.\n\n[workspace]\ndisplay_name = \"Default\"\n\n[signature]\nenabled = false\n# text = \"\\n[Sent from publo]\"\n\n[platform.linkedin.signature]\nenabled = true\n\n[platform.x.signature]\nenabled = false\n\n[media]\nlookup_paths = []\n\n[catalog]\nroots = []\n\n[security]\npublish_cli_password = \"\"\n";
    let id_line = concat3("[workspace]\nid = \"", workspace_id, "\"\n");
    let with_id = replace_all(base, "[workspace]\n", id_line.as_str());
    let escaped = replace_all(display_name, "\"", "\\\"");
    let name_line = concat3("display_name = \"", escaped.as_str(), "\"");
    replace_all(with_id.as_str(), "display_name = \"Default\"", name_line.as_str())
}

/// The `.env.example` of a new workspace.
pub fn workspace_env_example_template() -> (t: String)
    ensures
        t@ == spec_workspace_env_example(),
{
    "# LinkedIn app credentials/settings\nLINKEDIN_CLIENT_ID=\nLINKEDIN_CLIENT_SECRET=\nLINKEDIN_REDIRECT_URI=http://localhost:8788/callback\nLINKEDIN_SCOPES='w_member_social openid profile'\nLINKEDIN_API_VERSION=202607\n\n# LinkedIn runtime auth values\nLINKEDIN_ACCESS_TOKEN=\nLINKEDIN_REFRESH_TOKEN=\nLINKEDIN_ACCESS_TOKEN_EXPIRES_IN=\nLINKEDIN_REFRESH_TOKEN_EXPIRES_IN=\nLINKEDIN_AUTHOR_URN=urn:li:person:\n\n# X app credentials/settings\nX_CLIENT_ID=\nX_CLIENT_SECRET=\nX_REDIRECT_URI=http://127.0.0.1:8789/callback\nX_SCOPES='tweet.read tweet.write users.read media.write offline.access'\n\n# X runtime auth values\nX_ACCESS_TOKEN=\nX_REFRESH_TOKEN=\nX_ACCESS_TOKEN_EXPIRES_IN=\nX_TOKEN_TYPE=\n\n# Substack Notes browser-session authentication\nSUBSTACK_SESSION_TOKEN=\nSUBSTACK_PUBLICATION_URL=https://yourname.substack.com\n".to_owned()
}

/// The `.env` of a new workspace: the same as its `.env.example`.
pub fn workspace_env_template() -> (t: String)
    ensures
        t@ == spec_workspace_env_example(),
{
    workspace_env_example_template()
}

/// The `[workspace]` header line.
pub open spec fn spec_is_workspace_header(line: Seq<char>) -> bool {
    spec_trim(line) == "[workspace]"@
}

/// A table header line: `[...]`.
pub open spec fn spec_is_section_header(line: Seq<char>) -> bool {
    let t = spec_trim(line);
    t.len() > 0 && t[0] == '[' && t.last() == ']'
}

/// A line that sets `default`.
pub open spec fn spec_is_default_line(line: Seq<char>) -> bool {
    let t = spec_trim(line);
    spec_starts_with(t, "default"@) && spec_contains(t, "="@)
}

/// The first `[workspace]` header at or after `i`.
pub open spec fn spec_header_from(ls: Seq<Seq<char>>, i: int) -> Option<int>
    decreases ls.len() - i,
{
    if i < 0 || i >= ls.len() {
        None
    } else if spec_is_workspace_header(ls[i]) {
        Some(i)
    } else {
        spec_header_from(ls, i + 1)
    }
}

/// The end of the section whose body starts at `i`: the next table header, or
/// the end.
pub open spec fn spec_section_end(ls: Seq<Seq<char>>, i: int) -> int
    decreases ls.len() - i,
{
    if i < 0 || i >= ls.len() {
        ls.len() as int
    } else if spec_is_section_header(ls[i]) {
        i
    } else {
        spec_section_end(ls, i + 1)
    }
}

/// The last `default` line among `ls[lo..hi]`.
pub open spec fn spec_last_default(ls: Seq<Seq<char>>, lo: int, hi: int) -> Option<int>
    decreases hi - lo,
{
    if hi <= lo {
        None
    } else if spec_is_default_line(ls[hi - 1]) {
        Some(hi - 1)
    } else {
        spec_last_default(ls, lo, hi - 1)
    }
}

/// The `default = "..."` line for a workspace key.
pub open spec fn spec_default_line(workspace_id: Seq<char>) -> Seq<char> {
    "default = \""@ + workspace_id + "\""@
}

/// The lines of the global config after the default workspace is set: the
/// last `default` line of the `[workspace]` section is replaced; without one a
/// line is put right under the header; without a section one is appended,
/// after a blank line when the text does not end with one.
pub open spec fn spec_set_default_lines(ls: Seq<Seq<char>>, workspace_id: Seq<char>) -> Seq<Seq<char>> {
    let line = spec_default_line(workspace_id);
    match spec_header_from(ls, 0) {
        Some(h) => match spec_last_default(ls, h + 1, spec_section_end(ls, h + 1)) {
            Some(d) => ls.update(d, line),
            None => ls.insert(h + 1, line),
        },
        None => {
            let base = if ls.len() > 0 && spec_trim(ls.last()).len() > 0 {
                ls.push(seq![])
            } else {
                ls
            };
            base.push("[workspace]"@).push(line)
        },
    }
}

/// The global config text after the default workspace is set; it ends with a
/// line break when the input did, or when it would be empty.
pub open spec fn spec_set_default_workspace(raw: Seq<char>, workspace_id: Seq<char>) -> Seq<char> {
    let out = spec_join(spec_set_default_lines(spec_lines(raw), workspace_id), "\n"@);
    if (raw.len() > 0 && raw.last() == '\n') || out.len() == 0 {
        out.push('\n')
    } else {
        out
    }
}

fn is_workspace_header(line: &str) -> (b: bool)
    ensures
        b == spec_is_workspace_header(line@),
{
    let t = trim(line);
    str_eq(t.as_str(), "[workspace]")
}

fn is_section_header(line: &str) -> (b: bool)
    ensures
        b == spec_is_section_header(line@),
{
    let t = trim(line);
    let v = chars_of(t.as_str());
    v.len() > 0 && v[0] == '[' && v[v.len() - 1] == ']'
}

fn is_default_line(line: &str) -> (b: bool)
    ensures
        b == spec_is_default_line(line@),
{
    let t = trim(line);
    let v = chars_of(t.as_str());
    let p = chars_of("default");
    crate::text::matches_at(&v, &p, 0) && contains(t.as_str(), "=")
}

fn find_workspace_header(lines: &Vec<String>) -> (r: Option<usize>)
    ensures
        match r {
            Some(h) => spec_header_from(spec_string_views(lines@), 0) == Some(h as int) && h
                < lines@.len(),
            None => spec_header_from(spec_string_views(lines@), 0) is None,
        },
{
    let ghost ls = spec_string_views(lines@);
    let n = lines.len();
    let mut i: usize = 0;
    while i < n
        invariant
            n == lines@.len(),
            ls == spec_string_views(lines@),
            0 <= i <= n,
            spec_header_from(ls, 0) == spec_header_from(ls, i as int),
        decreases n - i,
    {
        if is_workspace_header(lines[i].as_str()) {
            return Some(i);
        }
        i = i + 1;
    }
    None
}

proof fn lemma_header_from_facts(ls: Seq<Seq<char>>, i: int)
    requires
        0 <= i,
    ensures
        match spec_header_from(ls, i) {
            Some(h) => i <= h < ls.len() && spec_is_workspace_header(ls[h]) && forall|j: int|
                i <= j < h ==> !spec_is_workspace_header(#[trigger] ls[j]),
            None => forall|j: int| i <= j < ls.len() ==> !spec_is_workspace_header(#[trigger] ls[j]),
        },
    decreases ls.len() - i,
{
    if i < ls.len() && !spec_is_workspace_header(ls[i]) {
        lemma_header_from_facts(ls, i + 1);
    }
}

proof fn lemma_header_from_is(ls: Seq<Seq<char>>, i: int, h: int)
    requires
        0 <= i <= h < ls.len(),
        spec_is_workspace_header(ls[h]),
        forall|j: int| i <= j < h ==> !spec_is_workspace_header(#[trigger] ls[j]),
    ensures
        spec_header_from(ls, i) == Some(h),
    decreases h - i,
{
    if i < h {
        lemma_header_from_is(ls, i + 1, h);
    }
}

proof fn lemma_section_end_facts(ls: Seq<Seq<char>>, i: int)
    requires
        0 <= i <= ls.len(),
    ensures
        i <= spec_section_end(ls, i) <= ls.len(),
        forall|j: int| i <= j < spec_section_end(ls, i) ==> !spec_is_section_header(#[trigger] ls[j]),
        spec_section_end(ls, i) < ls.len() ==> spec_is_section_header(ls[spec_section_end(ls, i)]),
    decreases ls.len() - i,
{
    if i < ls.len() && !spec_is_section_header(ls[i]) {
        lemma_section_end_facts(ls, i + 1);
    }
}

proof fn lemma_section_end_is(ls: Seq<Seq<char>>, i: int, e: int)
    requires
        0 <= i <= e <= ls.len(),
        forall|j: int| i <= j < e ==> !spec_is_section_header(#[trigger] ls[j]),
        e < ls.len() ==> spec_is_section_header(ls[e]),
    ensures
        spec_section_end(ls, i) == e,
    decreases e - i,
{
    if i < e {
        lemma_section_end_is(ls, i + 1, e);
    }
}

proof fn lemma_last_default_facts(ls: Seq<Seq<char>>, lo: int, hi: int)
    requires
        0 <= lo,
        hi <= ls.len(),
    ensures
        match spec_last_default(ls, lo, hi) {
            Some(d) => lo <= d < hi && spec_is_default_line(ls[d]) && forall|j: int|
                d < j < hi ==> !spec_is_default_line(#[trigger] ls[j]),
            None => forall|j: int| lo <= j < hi ==> !spec_is_default_line(#[trigger] ls[j]),
        },
    decreases hi - lo,
{
    if hi > lo && !spec_is_default_line(ls[hi - 1]) {
        lemma_last_default_facts(ls, lo, hi - 1);
    }
}

proof fn lemma_last_default_is(ls: Seq<Seq<char>>, lo: int, hi: int, d: int)
    requires
        0 <= lo <= d < hi <= ls.len(),
        spec_is_default_line(ls[d]),
        forall|j: int| d < j < hi ==> !spec_is_default_line(#[trigger] ls[j]),
    ensures
        spec_last_default(ls, lo, hi) == Some(d),
    decreases hi - d,
{
    if hi - 1 > d {
        lemma_last_default_is(ls, lo, hi - 1, d);
    }
}

/// What the `default = "..."` line is: a line of its own, a `default` line,
/// and no table header.
proof fn lemma_default_line_facts(id: Seq<char>)
    requires
        forall|k: int| 0 <= k < id.len() ==> #[trigger] id[k] != '\n',
    ensures
        spec_is_line(spec_default_line(id)),
        spec_default_line(id).len() > 0,
        spec_default_line(id).last() == '"',
        spec_is_default_line(spec_default_line(id)),
        !spec_is_section_header(spec_default_line(id)),
        !spec_is_workspace_header(spec_default_line(id)),
{
    reveal_strlit("default = \"");
    reveal_strlit("\"");
    reveal_strlit("default");
    reveal_strlit("=");
    reveal_strlit("[workspace]");
    let line = spec_default_line(id);
    let pre = "default = \""@;
    assert(pre.len() == 11);
    assert forall|k: int| 0 <= k < line.len() implies #[trigger] line[k] != '\n' by {
        if k < 11 {
            assert(line[k] == pre[k]);
        } else if k < 11 + id.len() {
            assert(line[k] == id[k - 11]);
        }
    }
    assert(line[0] == 'd');
    assert(line.last() == '"');
    lemma_trim_start_at(line, 0);
    lemma_trim_end_at(line, line.len() as int);
    assert(line.subrange(0, line.len() as int) =~= line);
    assert(spec_trim(line) == line);
    assert(line.subrange(0, 7) =~= "default"@);
    assert(spec_starts_with(line, "default"@));
    assert(line[8] == '=');
    assert(spec_matches_at(line, "="@, 8)) by {
        assert(line.subrange(8, 9) =~= "="@);
    }
    assert(spec_find_from(line, "="@, 8) == Some(8int));
    assert(line.subrange(0, 11) =~= pre);
    lemma_find_back(line, 8);
    assert(spec_find_from(line, "="@, 0) == Some(8int));
    assert(spec_contains(line, "="@));
    assert(line != "[workspace]"@) by {
        assert("[workspace]"@[0] == '[');
    }
}

proof fn lemma_find_back(line: Seq<char>, k: int)
    requires
        0 <= k <= 8,
        line.len() > 11,
        line.subrange(0, 11) == "default = \""@,
    ensures
        spec_find_from(line, "="@, 8 - k) == Some(8int),
    decreases k,
{
    reveal_strlit("default = \"");
    reveal_strlit("=");
    if k == 0 {
        assert(line[8] == "default = \""@[8]);
        assert(line.subrange(8, 9) =~= "="@);
    } else {
        lemma_find_back(line, k - 1);
        let at = 8 - k;
        assert(line[at] == "default = \""@[at]);
        assert(line.subrange(at, at + 1)[0] == line[at]);
        assert(!spec_matches_at(line, "="@, at));
    }
}

/// Lines that hold no line break.
pub open spec fn spec_all_lines(ls: Seq<Seq<char>>) -> bool {
    forall|k: int| 0 <= k < ls.len() ==> spec_is_line(#[trigger] ls[k])
}

/// No line that ends with `\r` is followed by a line break once the lines
/// are joined with line breaks (and one more after the last, when `trailing`).
pub open spec fn spec_no_cr_before_break(ls: Seq<Seq<char>>, trailing: bool) -> bool {
    forall|k: int| 0 <= k < ls.len() && (k + 1 < ls.len() || trailing) ==> (#[trigger] ls[k]).len() == 0
        || ls[k].last() != '\r'
}

/// Setting the default workspace in lines that already have it set changes
/// nothing, and keeps the lines free of line breaks.
proof fn lemma_set_default_lines_idempotent(ls: Seq<Seq<char>>, id: Seq<char>)
    requires
        forall|k: int| 0 <= k < id.len() ==> #[trigger] id[k] != '\n',
        spec_all_lines(ls),
    ensures
        spec_set_default_lines(spec_set_default_lines(ls, id), id) == spec_set_default_lines(ls, id),
        spec_set_default_lines(ls, id).len() >= 2,
        spec_all_lines(spec_set_default_lines(ls, id)),
        ls.len() > 0 && ls.last().len() > 0 ==> spec_set_default_lines(ls, id).last().len() > 0,
        ls.len() == 0 ==> spec_set_default_lines(ls, id).last().len() > 0,
{
    reveal_strlit("[workspace]");
    let line = spec_default_line(id);
    lemma_default_line_facts(id);
    let out = spec_set_default_lines(ls, id);
    lemma_header_from_facts(ls, 0);
    match spec_header_from(ls, 0) {
        Some(h) => {
            lemma_section_end_facts(ls, h + 1);
            let e = spec_section_end(ls, h + 1);
            lemma_last_default_facts(ls, h + 1, e);
            match spec_last_default(ls, h + 1, e) {
                Some(d) => {
                    assert(out == ls.update(d, line));
                    lemma_header_from_is(out, 0, h);
                    lemma_section_end_is(out, h + 1, e);
                    lemma_last_default_is(out, h + 1, e, d);
                    assert(out.update(d, line) =~= out);
                },
                None => {
                    assert(out == ls.insert(h + 1, line));
                    assert(out[h] == ls[h]);
                    assert forall|j: int| 0 <= j < h implies !spec_is_workspace_header(#[trigger] out[j]) by {
                        assert(out[j] == ls[j]);
                    }
                    lemma_header_from_is(out, 0, h);
                    assert forall|j: int| h + 1 <= j < e + 1 implies !spec_is_section_header(#[trigger] out[j]) by {
                        if j > h + 1 {
                            assert(out[j] == ls[j - 1]);
                        }
                    }
                    if e + 1 < out.len() {
                        assert(out[e + 1] == ls[e]);
                    }
                    lemma_section_end_is(out, h + 1, e + 1);
                    assert forall|j: int| h + 1 < j < e + 1 implies !spec_is_default_line(#[trigger] out[j]) by {
                        assert(out[j] == ls[j - 1]);
                    }
                    lemma_last_default_is(out, h + 1, e + 1, h + 1);
                    assert(out.update(h + 1, line) =~= out);
                    if ls.len() > 0 && ls.last().len() > 0 {
                        if h + 1 < ls.len() {
                            assert(out.last() == ls.last());
                        }
                    }
                },
            }
        },
        None => {
            let base = if ls.len() > 0 && spec_trim(ls.last()).len() > 0 {
                ls.push(seq![])
            } else {
                ls
            };
            assert(spec_trim(Seq::<char>::empty()) =~= Seq::<char>::empty());
            assert forall|j: int| 0 <= j < base.len() implies !spec_is_workspace_header(#[trigger] base[j]) by {
                if j < ls.len() {
                    assert(base[j] == ls[j]);
                } else {
                    assert(base[j] == Seq::<char>::empty());
                    assert("[workspace]"@.len() == 11);
                }
            }
            let hdr = "[workspace]"@;
            assert(out == base.push(hdr).push(line));
            let h = base.len() as int;
            assert(out[h] == hdr);
            lemma_trim_without_whitespace(hdr);
            assert(spec_is_workspace_header(hdr));
            assert forall|j: int| 0 <= j < h implies !spec_is_workspace_header(#[trigger] out[j]) by {
                assert(out[j] == base[j]);
            }
            lemma_header_from_is(out, 0, h);
            lemma_section_end_is(out, h + 1, out.len() as int);
            lemma_last_default_is(out, h + 1, out.len() as int, h + 1);
            assert(out.update(h + 1, line) =~= out);
            assert forall|k: int| 0 <= k < out.len() implies spec_is_line(#[trigger] out[k]) by {
                if k < ls.len() {
                    assert(out[k] == ls[k]);
                } else if k < base.len() {
                    assert(out[k] == Seq::<char>::empty());
                } else if k == h {
                    assert(hdr.last() == ']');
                }
            }
        },
    }
}

/// Setting the default workspace twice is setting it once, and the lines of
/// the result are the edited lines: for a `workspace_id` without a line
/// break, whenever no edited line that ends with `\r` is followed by a line
/// break in the result (the input's final line break is kept).
pub proof fn lemma_set_default_workspace_idempotent(raw: Seq<char>, workspace_id: Seq<char>)
    requires
        forall|k: int| 0 <= k < workspace_id.len() ==> #[trigger] workspace_id[k] != '\n',
        spec_no_cr_before_break(
            spec_set_default_lines(spec_lines(raw), workspace_id),
            raw.len() > 0 && raw.last() == '\n',
        ),
    ensures
        spec_lines(spec_set_default_workspace(raw, workspace_id)) == spec_set_default_lines(spec_lines(raw), workspace_id),
        spec_set_default_workspace(spec_set_default_workspace(raw, workspace_id), workspace_id)
            == spec_set_default_workspace(raw, workspace_id),
        spec_set_default_workspace(raw, workspace_id).last() == '\n' <==> (raw.len() > 0 && raw.last() == '\n'),
{
    reveal_strlit("\n");
    let ls = spec_lines(raw);
    lemma_lines_shape(raw, 0);
    assert(spec_all_lines(ls));
    lemma_set_default_lines_idempotent(ls, workspace_id);
    let lines2 = spec_set_default_lines(ls, workspace_id);
    let out = spec_join(lines2, "\n"@);
    let trailing = (raw.len() > 0 && raw.last() == '\n') || out.len() == 0;
    let r1 = spec_set_default_workspace(raw, workspace_id);
    lemma_join_front_sep(lines2, "\n"@);
    assert(out.len() > 0);
    assert(trailing == (raw.len() > 0 && raw.last() == '\n'));
    if !trailing {
        if raw.len() > 0 {
            assert(raw.last() != '\n');
            assert(ls.len() > 0 && ls.last().len() > 0);
        } else {
            assert(ls =~= Seq::<Seq<char>>::empty());
        }
    }
    assert(forall|k: int| 0 <= k < lines2.len() ==> spec_is_line(#[trigger] lines2[k]));
    assert forall|k: int| 0 <= k < lines2.len() - 1 implies (#[trigger] lines2[k]).len() == 0 || lines2[k].last() != '\r' by {
        assert(k + 1 < lines2.len());
    }
    if trailing {
        assert(lines2.len() - 1 + 1 == lines2.len());
        let k = lines2.len() - 1;
        assert(lines2[k].len() == 0 || lines2[k].last() != '\r');
    }
    lemma_lines_of_joined(lines2, trailing);
    assert(spec_lines(r1) == lines2);
    assert(spec_join(spec_set_default_lines(spec_lines(r1), workspace_id), "\n"@) == out);
    if trailing {
        assert(r1 == out.push('\n'));
        assert(r1.last() == '\n');
    } else {
        assert(r1 == out);
        assert(out == spec_join(lines2.drop_last(), "\n"@) + "\n"@ + lines2.last());
        assert(out.last() == lines2.last().last());
        assert(spec_is_line(lines2.last()));
        assert(lines2.last()[lines2.last().len() - 1] != '\n');
    }
}

/// The global config with its default workspace set to `workspace_id`.
pub fn set_default_workspace_in_global_config(raw: &str, workspace_id: &str) -> (out: String)
    ensures
        out@ == spec_set_default_workspace(raw@, workspace_id@),
{
    let mut lines = split_lines(raw);
    let ghost ls = spec_string_views(lines@);
    let n = lines.len();
    let header = find_workspace_header(&lines);
    let new_line = concat3("default = \"", workspace_id, "\"");
    let ghost target = spec_set_default_lines(ls, workspace_id@);
    match header {
        Some(h) => {
            let mut end = h + 1;
            while end < n && !is_section_header(lines[end].as_str())
                invariant
                    n == lines@.len(),
                    ls == spec_string_views(lines@),
                    h < end <= n,
                    spec_section_end(ls, h + 1) == spec_section_end(ls, end as int),
                decreases n - end,
            {
                end = end + 1;
            }
            let mut d = end;
            let mut found = false;
            while d > h + 1 && !found
                invariant
                    n == lines@.len(),
                    ls == spec_string_views(lines@),
                    h + 1 <= d <= end <= n,
                    !found ==> spec_last_default(ls, h + 1, end as int) == spec_last_default(
                        ls,
                        h + 1,
                        d as int,
                    ),
                    found ==> d < end && spec_last_default(ls, h + 1, end as int) == Some(
                        d as int,
                    ),
                decreases d + (if found { 0int } else { 1int }),
            {
                if is_default_line(lines[d - 1].as_str()) {
                    d = d - 1;
                    found = true;
                } else {
                    d = d - 1;
                }
            }
            if found {
                lines[d] = new_line;
                proof {
                    assert(spec_string_views(lines@) =~= ls.update(d as int, new_line@));
                }
            } else {
                lines.insert(h + 1, new_line);
                proof {
                    assert(spec_string_views(lines@) =~= ls.insert(h + 1, new_line@));
                }
            }
        },
        None => {
            let ghost before = lines@;
            if n > 0 {
                let t = trim(lines[n - 1].as_str());
                if t.as_str().unicode_len() > 0 {
                    let e = String::new();
                    lines.push(e);
                    proof {
                        lemma_string_views_push(before, e);
                        assert(e@ =~= Seq::<char>::empty());
                    }
                }
            }
            let ghost mid = lines@;
            let hdr = "[workspace]".to_owned();
            lines.push(hdr);
            proof {
                lemma_string_views_push(mid, hdr);
            }
            let ghost mid2 = lines@;
            lines.push(new_line);
            proof {
                lemma_string_views_push(mid2, new_line);
            }
        },
    }
    proof {
        assert(spec_string_views(lines@) =~= target);
    }
    let joined = join_lines(&lines, "\n");
    let raw_v = chars_of(raw);
    let jv = chars_of(joined.as_str());
    proof {
        reveal_strlit("\n");
        assert(joined@ + "\n"@ =~= joined@.push('\n'));
    }
    if (raw_v.len() > 0 && raw_v[raw_v.len() - 1] == '\n') || jv.len() == 0 {
        concat2(joined.as_str(), "\n")
    } else {
        joined
    }
}

/// A value written to `.env` needs quotes when it holds whitespace, `#` or a quote.
pub open spec fn spec_env_needs_quotes(value: Seq<char>) -> bool {
    exists|i: int|
        0 <= i < value.len() && (crate::text::spec_is_whitespace(#[trigger] value[i]) || value[i]
            == '#' || value[i] == '"' || value[i] == '\'')
}

/// A value as written to `.env`: as it is, or quoted with `\`, `"`, and the
/// line-break and tab characters escaped.
pub open spec fn spec_format_env_value(value: Seq<char>) -> Seq<char> {
    if !spec_env_needs_quotes(value) {
        value
    } else {
        let escaped = spec_replace(
            spec_replace(
                spec_replace(
                    spec_replace(spec_replace(value, "\\"@, "\\\\"@), "\""@, "\\\""@),
                    "\n"@,
                    "\\n"@,
                ),
                "\r"@,
                "\\r"@,
            ),
            "\t"@,
            "\\t"@,
        );
        "\""@ + escaped + "\""@
    }
}

/// Formats a value for a `.env` line.
pub fn format_env_value(value: &str) -> (r: String)
    ensures
        r@ == spec_format_env_value(value@),
{
    let v = chars_of(value);
    let mut needs = false;
    let mut i: usize = 0;
    while i < v.len()
        invariant
            v@ == value@,
            0 <= i <= v@.len(),
            needs <==> exists|j: int|
                0 <= j < i && (crate::text::spec_is_whitespace(#[trigger] v@[j]) || v@[j] == '#'
                    || v@[j] == '"' || v@[j] == '\''),
        decreases v.len() - i,
    {
        let c = v[i];
        if crate::text::is_whitespace(c) || c == '#' || c == '"' || c == '\'' {
            needs = true;
        }
        i = i + 1;
    }
    if !needs {
        return value.to_owned();
    }
    let a = replace_all(value, "\\", "\\\\");
    let b = replace_all(a.as_str(), "\"", "\\\"");
    let c = replace_all(b.as_str(), "\n", "\\n");
    let d = replace_all(c.as_str(), "\r", "\\r");
    let e = replace_all(d.as_str(), "\t", "\\t");
    concat3("\"", e.as_str(), "\"")
}

/// The first position of `c` in `s`.
pub open spec fn spec_index_of(s: Seq<char>, c: char, i: int) -> Option<int>
    decreases s.len() - i,
{
    if i < 0 || i >= s.len() {
        None
    } else if s[i] == c {
        Some(i)
    } else {
        spec_index_of(s, c, i + 1)
    }
}

fn index_of(s: &Vec<char>, c: char) -> (r: Option<usize>)
    ensures
        match r {
            Some(k) => spec_index_of(s@, c, 0) == Some(k as int) && k < s@.len(),
            None => spec_index_of(s@, c, 0) is None,
        },
{
    let mut i: usize = 0;
    while i < s.len()
        invariant
            0 <= i <= s@.len(),
            spec_index_of(s@, c, 0) == spec_index_of(s@, c, i as int),
        decreases s.len() - i,
    {
        if s[i] == c {
            return Some(i);
        }
        i = i + 1;
    }
    None
}

/// The key of a `KEY=value` line (what comes before its first `=`), trimmed;
/// none for a line without `=`.
pub open spec fn spec_line_key(line: Seq<char>) -> Option<Seq<char>> {
    match spec_index_of(line, '=', 0) {
        Some(k) => Some(spec_trim(line.subrange(0, k))),
        None => None,
    }
}

/// The value of a `KEY=value` line (what comes after its first `=`).
pub open spec fn spec_line_value(line: Seq<char>) -> Seq<char> {
    match spec_index_of(line, '=', 0) {
        Some(k) => line.subrange(k + 1, line.len() as int),
        None => seq![],
    }
}

fn line_key_value(line: &str) -> (r: Option<(String, String)>)
    ensures
        match r {
            Some((k, v)) => spec_line_key(line@) == Some(k@) && v@ == spec_line_value(line@),
            None => spec_line_key(line@) is None,
        },
{
    let v = chars_of(line);
    let len = v.len();
    match index_of(&v, '=') {
        Some(k) => {
            let before = slice_chars_str(&v, 0, k);
            let after = slice_chars_str(&v, k + 1, len);
            Some((trim(before.as_str()), after))
        },
        None => None,
    }
}

fn slice_chars_str(v: &Vec<char>, from: usize, to: usize) -> (s: String)
    requires
        from <= to <= v@.len(),
    ensures
        s@ == v@.subrange(from as int, to as int),
{
    let t = crate::text::slice_chars(v, from, to);
    string_from_chars(t.as_slice())
}

/// A comment line of `.env`: `#` after any leading whitespace.
pub open spec fn spec_is_comment(line: Seq<char>) -> bool {
    let t = crate::text::spec_trim_start(line);
    t.len() > 0 && t[0] == '#'
}

fn is_comment(line: &str) -> (b: bool)
    ensures
        b == spec_is_comment(line@),
{
    let v = chars_of(line);
    let n = v.len();
    let mut k: usize = 0;
    while k < n && crate::text::is_whitespace(v[k])
        invariant
            n == v@.len(),
            0 <= k <= n,
            forall|j: int| 0 <= j < k ==> crate::text::spec_is_whitespace(v@[j]),
        decreases n - k,
    {
        k = k + 1;
    }
    proof {
        crate::text::lemma_trim_start_at(v@, k as int);
    }
    k < n && v[k] == '#'
}

fn find_key_line(lines: &Vec<String>, key: &str) -> (r: Option<usize>)
    ensures
        match r {
            Some(j) => spec_key_line_from(spec_string_views(lines@), key@, 0) == Some(j as int)
                && j < lines@.len(),
            None => spec_key_line_from(spec_string_views(lines@), key@, 0) is None,
        },
{
    let ghost ls = spec_string_views(lines@);
    let n = lines.len();
    let mut i: usize = 0;
    while i < n
        invariant
            n == lines@.len(),
            ls == spec_string_views(lines@),
            0 <= i <= n,
            spec_key_line_from(ls, key@, 0) == spec_key_line_from(ls, key@, i as int),
        decreases n - i,
    {
        let this = lines[i].as_str();
        if !is_comment(this) {
            match line_key_value(this) {
                Some((k, _)) => {
                    if str_eq(k.as_str(), key) {
                        return Some(i);
                    }
                },
                None => {},
            }
        }
        i = i + 1;
    }
    None
}

/// The line of `.env` that sets `key`: not a comment, with `key` before its `=`.
pub open spec fn spec_is_key_line(line: Seq<char>, key: Seq<char>) -> bool {
    !spec_is_comment(line) && spec_line_key(line) == Some(key)
}

/// The first line at or after `i` that sets `key`.
pub open spec fn spec_key_line_from(ls: Seq<Seq<char>>, key: Seq<char>, i: int) -> Option<int>
    decreases ls.len() - i,
{
    if i < 0 || i >= ls.len() {
        None
    } else if spec_is_key_line(ls[i], key) {
        Some(i)
    } else {
        spec_key_line_from(ls, key, i + 1)
    }
}

/// The `.env` text after `key` is set to `value`: the first line that sets
/// `key` is rewritten, or a line is appended; every line ends with a break.
pub open spec fn spec_upsert_env(raw: Option<Seq<char>>, key: Seq<char>, value: Seq<char>) -> Seq<char> {
    let ls = match raw {
        Some(r) => spec_lines(r),
        None => seq![],
    };
    let line = key + "="@ + spec_format_env_value(value);
    let out = match spec_key_line_from(ls, key, 0) {
        Some(j) => ls.update(j, line),
        None => ls.push(line),
    };
    spec_join(out, "\n"@) + "\n"@
}

/// The `.env` text (`None` when there is no file yet) with `key` set to `value`.
pub fn upsert_env_text(raw: &Option<String>, key: &str, value: &str) -> (out: String)
    ensures
        out@ == spec_upsert_env(opt_seq(*raw), key@, value@),
{
    let mut lines: Vec<String> = match raw {
        Some(r) => split_lines(r.as_str()),
        None => Vec::new(),
    };
    let ghost ls = spec_string_views(lines@);
    proof {
        if raw is None {
            assert(ls =~= Seq::<Seq<char>>::empty());
        }
    }
    let formatted = format_env_value(value);
    let line = concat3(key, "=", formatted.as_str());
    let found = find_key_line(&lines, key);
    match found {
        Some(j) => {
            lines[j] = line;
            proof {
                assert(spec_string_views(lines@) =~= ls.update(j as int, line@));
            }
        },
        None => {
            let ghost before = lines@;
            lines.push(line);
            proof {
                lemma_string_views_push(before, line);
            }
        },
    }
    let joined = join_lines(&lines, "\n");
    concat2(joined.as_str(), "\n")
}

/// Whether `uuid::Uuid::parse_str` accepts `s`.
pub uninterp spec fn spec_uuid_parses(s: Seq<char>) -> bool;

/// `uuid::Uuid::parse_str(s).is_ok()`: whether the uuid crate reads `s` as a
/// UUID (hyphenated, simple, braced or URN form). The contract names the
/// answer only.
#[verifier::external_body]
fn uuid_parses(s: &str) -> (b: bool)
    ensures
        b == spec_uuid_parses(s@),
{
    uuid::Uuid::parse_str(s).is_ok()
}

/// The identity of a workspace, as found in or added to its config.
#[derive(Debug)]
pub enum WorkspaceIdentity {
    /// The config already names this id.
    Existing(String),
    /// The id was added; `config` is the new text of the file.
    Created { id: String, config: String },
}

/// The first line at or after `i` whose key is `id`.
pub open spec fn spec_id_line_from(ls: Seq<Seq<char>>, i: int) -> Option<int>
    decreases ls.len() - i,
{
    if i < 0 || i >= ls.len() {
        None
    } else if spec_line_key(ls[i]) == Some("id"@) {
        Some(i)
    } else {
        spec_id_line_from(ls, i + 1)
    }
}

/// The value of an `id = "..."` line: trimmed, without surrounding quotes.
pub open spec fn spec_id_value(line: Seq<char>) -> Seq<char> {
    spec_trim_end_while(
        spec_trim_start_while(spec_trim(spec_line_value(line)), |c: char| c == '"'),
        |c: char| c == '"',
    )
}

/// The first `[workspace]` header of the lines.
pub open spec fn spec_workspace_header(ls: Seq<Seq<char>>) -> Option<int> {
    spec_header_from(ls, 0)
}

/// The identity of a workspace from the text of its config at `path`: the
/// value of its first `id` line, which must be a UUID; else `generated_id`,
/// put right under the `[workspace]` header, which must be there.
pub open spec fn spec_workspace_identity(
    r: Result<WorkspaceIdentity, AppError>,
    raw: Seq<char>,
    path: Seq<char>,
    generated_id: Seq<char>,
) -> bool {
    let ls = spec_lines(raw);
    match spec_id_line_from(ls, 0) {
        Some(j) => {
            let v = spec_id_value(ls[j]);
            if spec_uuid_parses(v) {
                r matches Ok(WorkspaceIdentity::Existing(id)) && id@ == v
            } else {
                r matches Err(e) && is_validation(
                    e,
                    "Workspace config has invalid [workspace].id: "@ + path,
                    Some("Set [workspace].id to a UUID v4."@),
                    None,
                )
            }
        },
        None => match spec_workspace_header(ls) {
            Some(h) => r matches Ok(WorkspaceIdentity::Created { id, config }) && id@ == generated_id
                && config@ == spec_join(ls.insert(h + 1, "id = \""@ + generated_id + "\""@), "\n"@)
                + "\n"@,
            None => r matches Err(e) && is_validation(
                e,
                "Workspace config has no [workspace] section: "@ + path,
                Some("Add a [workspace] section and run `publo init` again."@),
                None,
            ),
        },
    }
}

fn find_id_line(lines: &Vec<String>) -> (r: Option<(usize, String)>)
    ensures
        match r {
            Some((j, v)) => spec_id_line_from(spec_string_views(lines@), 0) == Some(j as int) && j
                < lines@.len() && v@ == spec_line_value(lines@[j as int]@),
            None => spec_id_line_from(spec_string_views(lines@), 0) is None,
        },
{
    let ghost ls = spec_string_views(lines@);
    let n = lines.len();
    let mut i: usize = 0;
    while i < n
        invariant
            n == lines@.len(),
            ls == spec_string_views(lines@),
            0 <= i <= n,
            spec_id_line_from(ls, 0) == spec_id_line_from(ls, i as int),
        decreases n - i,
    {
        match line_key_value(lines[i].as_str()) {
            Some((k, v)) => {
                if str_eq(k.as_str(), "id") {
                    return Some((i, v));
                }
            },
            None => {},
        }
        i = i + 1;
    }
    None
}

/// The identity of a workspace from the text of its config at `path`.
pub fn ensure_workspace_config_identity(raw: &str, path: &str, generated_id: &str) -> (r: Result<
    WorkspaceIdentity,
    AppError,
>)
    ensures
        spec_workspace_identity(r, raw@, path@, generated_id@),
{
    let mut lines = split_lines(raw);
    let ghost ls = spec_string_views(lines@);
    match find_id_line(&lines) {
        Some((_, value)) => {
            let t = trim(value.as_str());
            let tv = chars_of(t.as_str());
            let front = crate::text::trim_start_char(&tv, '"');
            let back = trim_end_char(&front, '"');
            let existing = string_from_chars(back.as_slice());
            if uuid_parses(existing.as_str()) {
                Ok(WorkspaceIdentity::Existing(existing))
            } else {
                let message = concat2("Workspace config has invalid [workspace].id: ", path);
                Err(validation(message, Some("Set [workspace].id to a UUID v4."), None))
            }
        },
        None => match find_workspace_header(&lines) {
            Some(h) => {
                let line = concat3("id = \"", generated_id, "\"");
                let n = lines.len();
                assert(h < n);
                lines.insert(h + 1, line);
                proof {
                    assert(spec_string_views(lines@) =~= ls.insert(h + 1, line@));
                }
                let joined = join_lines(&lines, "\n");
                let config = concat2(joined.as_str(), "\n");
                Ok(WorkspaceIdentity::Created { id: generated_id.to_owned(), config })
            },
            None => {
                let message = concat2("Workspace config has no [workspace] section: ", path);
                Err(
                    validation(
                        message,
                        Some("Add a [workspace] section and run `publo init` again."),
                        None,
                    ),
                )
            },
        },
    }
}

} // verus!
