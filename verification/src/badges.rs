//! The job badges the catalog shows beside each file: one badge per status
//! and platform (in any case), in the catalog's status order, files in the
//! order of their paths.
use vstd::prelude::*;

use crate::catalog::{catalog_status_rank, spec_catalog_status_rank};
use crate::chars::str_eq;
use crate::errors::opt_seq;
use crate::note::spec_string_views;
use crate::jobs::{
    lemma_text_le_total, lemma_text_le_transitive, spec_text_le,
    text_le,
};
use crate::text::{ascii_lowercase, spec_ascii_lowercase};

verus! {

broadcast use {vstd::seq_lib::group_to_multiset_ensures, vstd::multiset::group_multiset_axioms};

/// A job as the catalog reads it: its file, status and platform.
#[derive(Debug)]
pub struct CatalogJobRow {
    pub file_path: String,
    pub status: String,
    pub platform: Option<String>,
}

/// One badge of a file: a status and the platform it is for.
#[derive(Debug)]
pub struct CatalogJobBadge {
    pub status: String,
    pub platform: Option<String>,
}

/// The badges of one file.
#[derive(Debug)]
pub struct CatalogJobState {
    pub path: String,
    pub badges: Vec<CatalogJobBadge>,
}

/// The view of a badge.
pub ghost struct BadgeView {
    pub status: Seq<char>,
    pub platform: Option<Seq<char>>,
}

impl View for CatalogJobBadge {
    type V = BadgeView;

    open spec fn view(&self) -> BadgeView {
        BadgeView { status: self.status@, platform: opt_seq(self.platform) }
    }
}

/// The text of a platform; none is the empty text.
pub open spec fn spec_platform_text(p: Option<Seq<char>>) -> Seq<char> {
    match p {
        Some(t) => t,
        None => Seq::empty(),
    }
}

/// What tells badges apart: the status, and the platform in lower case.
pub open spec fn spec_badge_key(b: BadgeView) -> (Seq<char>, Seq<char>) {
    (b.status, spec_ascii_lowercase(spec_platform_text(b.platform)))
}

/// The badge a job row stands for.
pub open spec fn spec_row_badge(r: CatalogJobRow) -> BadgeView {
    BadgeView { status: r.status@, platform: opt_seq(r.platform) }
}

/// Whether some badge of `bs` has the key `k`.
pub open spec fn spec_has_key(bs: Seq<BadgeView>, k: (Seq<char>, Seq<char>)) -> bool {
    exists|i: int| 0 <= i < bs.len() && spec_badge_key(bs[i]) == k
}

/// The badges of `path` among the first `n` rows, in row order, each key
/// once (the first row with a key gives its badge).
pub open spec fn spec_path_badges(rows: Seq<CatalogJobRow>, path: Seq<char>, n: int) -> Seq<BadgeView>
    decreases n,
{
    if n <= 0 {
        seq![]
    } else {
        let prev = spec_path_badges(rows, path, n - 1);
        let r = rows[n - 1];
        if r.file_path@ == path && !spec_has_key(prev, spec_badge_key(spec_row_badge(r))) {
            prev.push(spec_row_badge(r))
        } else {
            prev
        }
    }
}

/// The catalog's order of badges: by status rank, then by platform text.
pub open spec fn spec_badge_le(a: BadgeView, b: BadgeView) -> bool {
    let ra = spec_catalog_status_rank(a.status);
    let rb = spec_catalog_status_rank(b.status);
    ra < rb || (ra == rb && spec_text_le(spec_platform_text(a.platform), spec_platform_text(b.platform)))
}

/// Badges in the catalog's order.
pub open spec fn spec_badges_sorted(s: Seq<BadgeView>) -> bool {
    forall|i: int, j: int| 0 <= i < j < s.len() ==> #[trigger] spec_badge_le(s[i], s[j])
}

/// The views of badges.
pub open spec fn spec_badge_views(v: Seq<CatalogJobBadge>) -> Seq<BadgeView> {
    v.map_values(|b: CatalogJobBadge| b@)
}

proof fn lemma_badge_le_transitive(a: BadgeView, b: BadgeView, c: BadgeView)
    requires
        spec_badge_le(a, b),
        spec_badge_le(b, c),
    ensures
        spec_badge_le(a, c),
{
    if spec_catalog_status_rank(a.status) == spec_catalog_status_rank(b.status)
        && spec_catalog_status_rank(b.status) == spec_catalog_status_rank(c.status) {
        lemma_text_le_transitive(
            spec_platform_text(a.platform),
            spec_platform_text(b.platform),
            spec_platform_text(c.platform),
        );
    }
}

proof fn lemma_badge_le_total(a: BadgeView, b: BadgeView)
    ensures
        spec_badge_le(a, b) || spec_badge_le(b, a),
{
    lemma_text_le_total(spec_platform_text(a.platform), spec_platform_text(b.platform));
}

/// Putting `x` right after the last badge at or before it keeps badges sorted.
proof fn lemma_insert_keeps_sorted(s: Seq<BadgeView>, i: int, x: BadgeView)
    requires
        spec_badges_sorted(s),
        0 <= i <= s.len(),
        i > 0 ==> spec_badge_le(s[i - 1], x),
        forall|j: int| i <= j < s.len() ==> !spec_badge_le(#[trigger] s[j], x),
    ensures
        spec_badges_sorted(s.insert(i, x)),
{
    let t = s.insert(i, x);
    assert forall|a: int, b: int| 0 <= a < b < t.len() implies #[trigger] spec_badge_le(t[a], t[b]) by {
        if b < i {
            assert(t[a] == s[a] && t[b] == s[b]);
        } else if b == i {
            assert(t[b] == x);
            assert(t[a] == s[a]);
            if a < i - 1 {
                assert(spec_badge_le(s[a], s[i - 1]));
                lemma_badge_le_transitive(s[a], s[i - 1], x);
            }
        } else if a == i {
            assert(t[a] == x);
            assert(t[b] == s[b - 1]);
            assert(!spec_badge_le(s[b - 1], x));
            lemma_badge_le_total(s[b - 1], x);
        } else if a < i {
            assert(t[a] == s[a] && t[b] == s[b - 1]);
        } else {
            assert(t[a] == s[a - 1] && t[b] == s[b - 1]);
        }
    }
}

fn platform_text(p: &Option<String>) -> (t: &str)
    ensures
        t@ == spec_platform_text(opt_seq(*p)),
{
    match p {
        Some(s) => s.as_str(),
        None => {
            proof {
                reveal_strlit("");
            }
            ""
        },
    }
}

fn badge_le(a: &CatalogJobBadge, b: &CatalogJobBadge) -> (r: bool)
    ensures
        r == spec_badge_le(a@, b@),
{
    let ra = catalog_status_rank(a.status.as_str());
    let rb = catalog_status_rank(b.status.as_str());
    if ra != rb {
        return ra < rb;
    }
    text_le(platform_text(&a.platform), platform_text(&b.platform))
}

/// Badges put in the catalog's order.
fn sort_badges(v: Vec<CatalogJobBadge>) -> (out: Vec<CatalogJobBadge>)
    ensures
        spec_badges_sorted(spec_badge_views(out@)),
        spec_badge_views(out@).to_multiset() == spec_badge_views(v@).to_multiset(),
{
    let ghost all = spec_badge_views(v@).to_multiset();
    let mut rest = v;
    let mut out: Vec<CatalogJobBadge> = Vec::new();
    proof {
        assert(spec_badge_views(out@) =~= Seq::<BadgeView>::empty());
    }
    while rest.len() > 0
        invariant
            spec_badges_sorted(spec_badge_views(out@)),
            spec_badge_views(out@).to_multiset().add(spec_badge_views(rest@).to_multiset()) == all,
        decreases rest.len(),
    {
        let ghost rest_before = rest@;
        let x = rest.pop().unwrap();
        proof {
            assert(spec_badge_views(rest_before) =~= spec_badge_views(rest@).push(x@));
        }
        let mut i = out.len();
        while i > 0 && !badge_le(&out[i - 1], &x)
            invariant
                0 <= i <= out@.len(),
                forall|j: int| i <= j < out@.len() ==> !spec_badge_le(#[trigger] out@[j]@, x@),
            decreases i,
        {
            i = i - 1;
        }
        let ghost before = spec_badge_views(out@);
        proof {
            assert(forall|j: int| 0 <= j < before.len() ==> before[j] == #[trigger] out@[j]@);
            assert forall|j: int| i <= j < before.len() implies !spec_badge_le(#[trigger] before[j], x@) by {
                assert(before[j] == out@[j]@);
            }
            if i > 0 {
                assert(before[i - 1] == out@[i - 1]@);
            }
            lemma_insert_keeps_sorted(before, i as int, x@);
        }
        out.insert(i, x);
        proof {
            assert(spec_badge_views(out@) =~= before.insert(i as int, x@));
            vstd::seq_lib::to_multiset_insert(before, i as int, x@);
        }
    }
    proof {
        assert(spec_badge_views(rest@) =~= Seq::<BadgeView>::empty());
    }
    out
}

fn clone_opt(o: &Option<String>) -> (r: Option<String>)
    ensures
        opt_seq(r) == opt_seq(*o),
{
    match o {
        Some(s) => Some(s.clone()),
        None => None,
    }
}

/// Whether a badge of `acc` has the status `status` and, in lower case, the
/// platform text `platform_key`.
fn has_key(acc: &Vec<CatalogJobBadge>, status: &str, platform_key: &str) -> (b: bool)
    ensures
        b == spec_has_key(spec_badge_views(acc@), (status@, platform_key@)),
{
    let ghost vs = spec_badge_views(acc@);
    let mut i: usize = 0;
    while i < acc.len()
        invariant
            0 <= i <= acc@.len(),
            vs == spec_badge_views(acc@),
            forall|j: int| 0 <= j < i ==> spec_badge_key(vs[j]) != (status@, platform_key@),
        decreases acc.len() - i,
    {
        let k = ascii_lowercase(platform_text(&acc[i].platform));
        if str_eq(acc[i].status.as_str(), status) && str_eq(k.as_str(), platform_key) {
            proof {
                assert(vs[i as int] == acc@[i as int]@);
                assert(spec_badge_key(vs[i as int]) == (status@, platform_key@));
            }
            return true;
        }
        proof {
            assert(vs[i as int] == acc@[i as int]@);
        }
        i = i + 1;
    }
    false
}

/// The badges of `path`, in row order, each key once.
fn path_badges(rows: &Vec<CatalogJobRow>, path: &str) -> (out: Vec<CatalogJobBadge>)
    ensures
        spec_badge_views(out@) == spec_path_badges(rows@, path@, rows@.len() as int),
{
    let mut out: Vec<CatalogJobBadge> = Vec::new();
    proof {
        assert(spec_badge_views(out@) =~= Seq::<BadgeView>::empty());
    }
    let mut k: usize = 0;
    while k < rows.len()
        invariant
            0 <= k <= rows@.len(),
            spec_badge_views(out@) == spec_path_badges(rows@, path@, k as int),
        decreases rows.len() - k,
    {
        let r = &rows[k];
        if str_eq(r.file_path.as_str(), path) {
            let lp = ascii_lowercase(platform_text(&r.platform));
            if !has_key(&out, r.status.as_str(), lp.as_str()) {
                let b = CatalogJobBadge { status: r.status.clone(), platform: clone_opt(&r.platform) };
                let ghost before = out@;
                out.push(b);
                proof {
                    assert(spec_badge_views(out@) =~= spec_badge_views(before).push(b@));
                }
            }
        }
        k = k + 1;
    }
    out
}

/// The paths of the first `n` rows.
pub open spec fn spec_row_paths(rows: Seq<CatalogJobRow>, n: int) -> Set<Seq<char>>
    decreases n,
{
    if n <= 0 {
        Set::empty()
    } else {
        spec_row_paths(rows, n - 1).insert(rows[n - 1].file_path@)
    }
}

/// `a` sorts strictly before `b`.
pub open spec fn spec_text_lt(a: Seq<char>, b: Seq<char>) -> bool {
    spec_text_le(a, b) && a != b
}

/// Paths in strictly increasing order.
pub open spec fn spec_paths_strictly_sorted(s: Seq<Seq<char>>) -> bool {
    forall|i: int, j: int| 0 <= i < j < s.len() ==> #[trigger] spec_text_lt(s[i], s[j])
}

proof fn lemma_insert_contains<A>(s: Seq<A>, i: int, x: A, q: A)
    requires
        0 <= i <= s.len(),
    ensures
        s.insert(i, x).contains(q) <==> (s.contains(q) || q == x),
{
    let t = s.insert(i, x);
    if q == x {
        assert(t[i] == x);
    }
    if s.contains(q) {
        let j = choose|j: int| 0 <= j < s.len() && s[j] == q;
        if j < i {
            assert(t[j] == q);
        } else {
            assert(t[j + 1] == q);
        }
    }
    if t.contains(q) {
        let m = choose|m: int| 0 <= m < t.len() && t[m] == q;
        if m < i {
            assert(s[m] == q);
        } else if m > i {
            assert(s[m - 1] == q);
        }
    }
}

proof fn lemma_insert_keeps_strictly_sorted(s: Seq<Seq<char>>, i: int, x: Seq<char>)
    requires
        spec_paths_strictly_sorted(s),
        !s.contains(x),
        0 <= i <= s.len(),
        i > 0 ==> spec_text_le(s[i - 1], x),
        forall|j: int| i <= j < s.len() ==> !spec_text_le(#[trigger] s[j], x),
    ensures
        spec_paths_strictly_sorted(s.insert(i, x)),
{
    let t = s.insert(i, x);
    assert forall|a: int, b: int| 0 <= a < b < t.len() implies #[trigger] spec_text_lt(t[a], t[b]) by {
        if b < i {
            assert(t[a] == s[a] && t[b] == s[b]);
        } else if b == i {
            assert(t[b] == x);
            assert(t[a] == s[a]);
            assert(s[a] != x);
            if a < i - 1 {
                assert(spec_text_lt(s[a], s[i - 1]));
                lemma_text_le_transitive(s[a], s[i - 1], x);
            }
        } else if a == i {
            assert(t[a] == x);
            assert(t[b] == s[b - 1]);
            assert(s[b - 1] != x);
            lemma_text_le_total(s[b - 1], x);
        } else if a < i {
            assert(t[a] == s[a] && t[b] == s[b - 1]);
        } else {
            assert(t[a] == s[a - 1] && t[b] == s[b - 1]);
        }
    }
}

fn has_path(paths: &Vec<String>, p: &str) -> (b: bool)
    ensures
        b == spec_string_views(paths@).contains(p@),
{
    let mut i: usize = 0;
    while i < paths.len()
        invariant
            0 <= i <= paths@.len(),
            forall|j: int| 0 <= j < i ==> paths@[j]@ != p@,
        decreases paths.len() - i,
    {
        if str_eq(paths[i].as_str(), p) {
            proof {
                assert(spec_string_views(paths@)[i as int] == p@);
            }
            return true;
        }
        i = i + 1;
    }
    proof {
        if spec_string_views(paths@).contains(p@) {
            let j = choose|j: int| 0 <= j < spec_string_views(paths@).len() && spec_string_views(paths@)[j] == p@;
            assert(paths@[j]@ == p@);
        }
    }
    false
}

/// The paths of the rows, each once, in increasing order.
fn sorted_paths(rows: &Vec<CatalogJobRow>) -> (out: Vec<String>)
    ensures
        spec_paths_strictly_sorted(spec_string_views(out@)),
        forall|p: Seq<char>| spec_string_views(out@).contains(p) <==> spec_row_paths(rows@, rows@.len() as int).contains(p),
{
    let mut out: Vec<String> = Vec::new();
    proof {
        assert(spec_string_views(out@) =~= Seq::<Seq<char>>::empty());
    }
    let mut k: usize = 0;
    while k < rows.len()
        invariant
            0 <= k <= rows@.len(),
            spec_paths_strictly_sorted(spec_string_views(out@)),
            forall|p: Seq<char>| spec_string_views(out@).contains(p) <==> spec_row_paths(rows@, k as int).contains(p),
        decreases rows.len() - k,
    {
        let p = rows[k].file_path.as_str();
        if !has_path(&out, p) {
            let mut i = out.len();
            while i > 0 && !text_le(out[i - 1].as_str(), p)
                invariant
                    0 <= i <= out@.len(),
                    forall|j: int| i <= j < out@.len() ==> !spec_text_le(#[trigger] out@[j]@, p@),
                decreases i,
            {
                i = i - 1;
            }
            let ghost before = spec_string_views(out@);
            proof {
                assert forall|j: int| i <= j < before.len() implies !spec_text_le(#[trigger] before[j], p@) by {
                    assert(before[j] == out@[j]@);
                }
                if i > 0 {
                    assert(before[i - 1] == out@[i - 1]@);
                }
                lemma_insert_keeps_strictly_sorted(before, i as int, p@);
            }
            let owned = p.to_owned();
            out.insert(i, owned);
            proof {
                assert(spec_string_views(out@) =~= before.insert(i as int, p@));
                assert forall|q: Seq<char>| spec_string_views(out@).contains(q) <==> spec_row_paths(rows@, k + 1).contains(q) by {
                    lemma_insert_contains(before, i as int, p@, q);
                }
            }
        } else {
            proof {
                assert forall|q: Seq<char>| spec_string_views(out@).contains(q) <==> spec_row_paths(rows@, k + 1).contains(q) by {
                    if q == p@ {
                        assert(spec_string_views(out@).contains(p@));
                    }
                }
            }
        }
        k = k + 1;
    }
    out
}

/// The paths of file badges.
pub open spec fn spec_state_paths(s: Seq<CatalogJobState>) -> Seq<Seq<char>> {
    s.map_values(|st: CatalogJobState| st.path@)
}

/// The badges of every file that has jobs: files in increasing path order,
/// each once; each file's badges one per status and platform (in any case),
/// the first job giving it, in the catalog's order of statuses and then of
/// platform names.
pub fn catalog_job_states(rows: &Vec<CatalogJobRow>) -> (out: Vec<CatalogJobState>)
    ensures
        spec_paths_strictly_sorted(spec_state_paths(out@)),
        forall|p: Seq<char>| spec_state_paths(out@).contains(p) <==> spec_row_paths(rows@, rows@.len() as int).contains(p),
        forall|k: int| 0 <= k < out@.len() ==> {
            &&& spec_badges_sorted(spec_badge_views(#[trigger] out@[k].badges@))
            &&& spec_badge_views(out@[k].badges@).to_multiset() == spec_path_badges(
                rows@,
                out@[k].path@,
                rows@.len() as int,
            ).to_multiset()
        },
{
    let paths = sorted_paths(rows);
    let ghost pv = spec_string_views(paths@);
    let mut out: Vec<CatalogJobState> = Vec::new();
    let mut i: usize = 0;
    while i < paths.len()
        invariant
            0 <= i <= paths@.len(),
            pv == spec_string_views(paths@),
            out@.len() == i,
            forall|k: int| 0 <= k < i ==> (#[trigger] out@[k]).path@ == pv[k],
            forall|k: int| 0 <= k < i ==> {
                &&& spec_badges_sorted(spec_badge_views(#[trigger] out@[k].badges@))
                &&& spec_badge_views(out@[k].badges@).to_multiset() == spec_path_badges(
                    rows@,
                    out@[k].path@,
                    rows@.len() as int,
                ).to_multiset()
            },
        decreases paths.len() - i,
    {
        let found = path_badges(rows, paths[i].as_str());
        let badges = sort_badges(found);
        out.push(CatalogJobState { path: paths[i].clone(), badges });
        i = i + 1;
    }
    proof {
        assert(spec_state_paths(out@) =~= pv);
    }
    out
}

/// What a directory entry is in the catalog tree.
#[derive(Clone, Copy, PartialEq, Eq, Structural, Debug)]
pub enum CatalogEntryKind {
    Dir,
    File,
}

/// A name ends with `.md`, in any case.
pub open spec fn spec_is_markdown_name(name: Seq<char>) -> bool {
    let l = spec_ascii_lowercase(name);
    l.len() >= 3 && l.subrange(l.len() - 3, l.len() as int) == ".md"@
}

/// What the tree shows of a directory entry: nothing for a hidden name;
/// a directory; a Markdown file; nothing else.
pub open spec fn spec_entry_kind(name: Seq<char>, is_dir: bool, is_file: bool) -> Option<CatalogEntryKind> {
    if name.len() > 0 && name[0] == '.' {
        None
    } else if is_dir {
        Some(CatalogEntryKind::Dir)
    } else if is_file && spec_is_markdown_name(name) {
        Some(CatalogEntryKind::File)
    } else {
        None
    }
}

/// What the tree shows of a directory entry.
pub fn catalog_entry_kind(name: &str, is_dir: bool, is_file: bool) -> (k: Option<CatalogEntryKind>)
    ensures
        k == spec_entry_kind(name@, is_dir, is_file),
{
    let v = crate::chars::chars_of(name);
    if v.len() > 0 && v[0] == '.' {
        return None;
    }
    if is_dir {
        return Some(CatalogEntryKind::Dir);
    }
    if !is_file {
        return None;
    }
    let l = crate::text::ascii_lowercase_chars(&v);
    let n = l.len();
    proof {
        reveal_strlit(".md");
    }
    if n >= 3 && l[n - 3] == '.' && l[n - 2] == 'm' && l[n - 1] == 'd' {
        proof {
            assert(l@.subrange(n - 3, n as int) =~= ".md"@);
        }
        Some(CatalogEntryKind::File)
    } else {
        proof {
            if n >= 3 {
                let t = l@.subrange(n - 3, n as int);
                if t == ".md"@ {
                    assert(t[0] == l@[n - 3]);
                    assert(t[1] == l@[n - 2]);
                    assert(t[2] == l@[n - 1]);
                }
            }
        }
        None
    }
}

/// The tree's order of entries: directories first, then by name.
pub open spec fn spec_entry_le(a: (bool, Seq<char>), b: (bool, Seq<char>)) -> bool {
    (a.0 && !b.0) || (a.0 == b.0 && spec_text_le(a.1, b.1))
}

/// Entries in the tree's order.
pub open spec fn spec_entries_sorted(s: Seq<(bool, Seq<char>)>) -> bool {
    forall|i: int, j: int| 0 <= i < j < s.len() ==> #[trigger] spec_entry_le(s[i], s[j])
}

/// The views of entries: whether each is a directory, and its name.
pub open spec fn spec_entry_views(v: Seq<(bool, String)>) -> Seq<(bool, Seq<char>)> {
    v.map_values(|e: (bool, String)| (e.0, e.1@))
}

proof fn lemma_entry_insert_keeps_sorted(s: Seq<(bool, Seq<char>)>, i: int, x: (bool, Seq<char>))
    requires
        spec_entries_sorted(s),
        0 <= i <= s.len(),
        i > 0 ==> spec_entry_le(s[i - 1], x),
        forall|j: int| i <= j < s.len() ==> !spec_entry_le(#[trigger] s[j], x),
    ensures
        spec_entries_sorted(s.insert(i, x)),
{
    let t = s.insert(i, x);
    assert forall|a: int, b: int| 0 <= a < b < t.len() implies #[trigger] spec_entry_le(t[a], t[b]) by {
        if b < i {
            assert(t[a] == s[a] && t[b] == s[b]);
        } else if b == i {
            assert(t[b] == x);
            assert(t[a] == s[a]);
            if a < i - 1 {
                assert(spec_entry_le(s[a], s[i - 1]));
                if s[a].0 == s[i - 1].0 && s[i - 1].0 == x.0 {
                    lemma_text_le_transitive(s[a].1, s[i - 1].1, x.1);
                }
            }
        } else if a == i {
            assert(t[a] == x);
            assert(t[b] == s[b - 1]);
            lemma_text_le_total(s[b - 1].1, x.1);
        } else if a < i {
            assert(t[a] == s[a] && t[b] == s[b - 1]);
        } else {
            assert(t[a] == s[a - 1] && t[b] == s[b - 1]);
        }
    }
}

fn entry_le(a: &(bool, String), b: &(bool, String)) -> (r: bool)
    ensures
        r == spec_entry_le((a.0, a.1@), (b.0, b.1@)),
{
    (a.0 && !b.0) || (a.0 == b.0 && text_le(a.1.as_str(), b.1.as_str()))
}

/// Directory entries (whether each is a directory, and its name) in the
/// tree's order: directories first, then by name.
pub fn sort_catalog_entries(v: Vec<(bool, String)>) -> (out: Vec<(bool, String)>)
    ensures
        spec_entries_sorted(spec_entry_views(out@)),
        spec_entry_views(out@).to_multiset() == spec_entry_views(v@).to_multiset(),
{
    let ghost all = spec_entry_views(v@).to_multiset();
    let mut rest = v;
    let mut out: Vec<(bool, String)> = Vec::new();
    proof {
        assert(spec_entry_views(out@) =~= Seq::<(bool, Seq<char>)>::empty());
    }
    while rest.len() > 0
        invariant
            spec_entries_sorted(spec_entry_views(out@)),
            spec_entry_views(out@).to_multiset().add(spec_entry_views(rest@).to_multiset()) == all,
        decreases rest.len(),
    {
        let ghost rest_before = rest@;
        let x = rest.pop().unwrap();
        proof {
            assert(spec_entry_views(rest_before) =~= spec_entry_views(rest@).push((x.0, x.1@)));
        }
        let mut i = out.len();
        while i > 0 && !entry_le(&out[i - 1], &x)
            invariant
                0 <= i <= out@.len(),
                forall|j: int| i <= j < out@.len() ==> !spec_entry_le((#[trigger] out@[j].0, out@[j].1@), (x.0, x.1@)),
            decreases i,
        {
            i = i - 1;
        }
        let ghost before = spec_entry_views(out@);
        let ghost xv = (x.0, x.1@);
        proof {
            assert forall|j: int| i <= j < before.len() implies !spec_entry_le(#[trigger] before[j], xv) by {
                assert(before[j] == (out@[j].0, out@[j].1@));
            }
            if i > 0 {
                assert(before[i - 1] == (out@[i - 1].0, out@[i - 1].1@));
            }
            lemma_entry_insert_keeps_sorted(before, i as int, xv);
        }
        out.insert(i, x);
        proof {
            assert(spec_entry_views(out@) =~= before.insert(i as int, xv));
            vstd::seq_lib::to_multiset_insert(before, i as int, xv);
        }
    }
    proof {
        assert(spec_entry_views(rest@) =~= Seq::<(bool, Seq<char>)>::empty());
    }
    out
}

} // verus!
