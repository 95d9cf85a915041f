//! The catalog the GUI browses: which files and media it may serve, the
//! content types it serves them with, the order of job statuses, and what
//! marking a file ready does.
use vstd::prelude::*;

use crate::chars::{chars_of, str_eq};
use crate::errors::opt_seq;
use crate::paths::{
    path_has_parent_dir, path_is_absolute, path_starts_with, spec_path_has_parent_dir,
    spec_path_is_absolute, spec_path_starts_with,
};
use crate::publish::{lower_extension, spec_lower_extension};
use crate::text::{spec_trim, spec_trim_start_while, trim, trim_start_char};

verus! {

/// The order of statuses in the catalog: ready, scheduled, publishing,
/// published, blocked, failed, canceled, disabled; anything else last (99).
pub open spec fn spec_catalog_status_rank(status: Seq<char>) -> usize {
    if status == "ready"@ {
        0
    } else if status == "scheduled"@ {
        1
    } else if status == "publishing"@ {
        2
    } else if status == "published"@ {
        3
    } else if status == "blocked"@ {
        4
    } else if status == "failed"@ {
        5
    } else if status == "canceled"@ {
        6
    } else if status == "disabled"@ {
        7
    } else {
        99
    }
}

/// The position of a status in the catalog's order.
pub fn catalog_status_rank(status: &str) -> (r: usize)
    ensures
        r == spec_catalog_status_rank(status@),
{
    if str_eq(status, "ready") {
        0
    } else if str_eq(status, "scheduled") {
        1
    } else if str_eq(status, "publishing") {
        2
    } else if str_eq(status, "published") {
        3
    } else if str_eq(status, "blocked") {
        4
    } else if str_eq(status, "failed") {
        5
    } else if str_eq(status, "canceled") {
        6
    } else if str_eq(status, "disabled") {
        7
    } else {
        99
    }
}

/// The content type of a file of the GUI's bundle, by extension in any case.
pub open spec fn spec_static_content_type(path: Seq<char>) -> Seq<char> {
    let e = spec_lower_extension(path);
    if e == "html"@ {
        "text/html; charset=utf-8"@
    } else if e == "js"@ || e == "mjs"@ {
        "application/javascript; charset=utf-8"@
    } else if e == "css"@ {
        "text/css; charset=utf-8"@
    } else if e == "json"@ {
        "application/json; charset=utf-8"@
    } else if e == "svg"@ {
        "image/svg+xml"@
    } else if e == "png"@ {
        "image/png"@
    } else if e == "jpg"@ || e == "jpeg"@ {
        "image/jpeg"@
    } else if e == "webp"@ {
        "image/webp"@
    } else if e == "ico"@ {
        "image/x-icon"@
    } else if e == "txt"@ {
        "text/plain; charset=utf-8"@
    } else {
        "application/octet-stream"@
    }
}

/// The content type of a file of the GUI's bundle.
pub fn static_content_type(path: &str) -> (t: &'static str)
    ensures
        t@ == spec_static_content_type(path@),
{
    let e = lower_extension(path);
    let e = e.as_str();
    if str_eq(e, "html") {
        "text/html; charset=utf-8"
    } else if str_eq(e, "js") || str_eq(e, "mjs") {
        "application/javascript; charset=utf-8"
    } else if str_eq(e, "css") {
        "text/css; charset=utf-8"
    } else if str_eq(e, "json") {
        "application/json; charset=utf-8"
    } else if str_eq(e, "svg") {
        "image/svg+xml"
    } else if str_eq(e, "png") {
        "image/png"
    } else if str_eq(e, "jpg") || str_eq(e, "jpeg") {
        "image/jpeg"
    } else if str_eq(e, "webp") {
        "image/webp"
    } else if str_eq(e, "ico") {
        "image/x-icon"
    } else if str_eq(e, "txt") {
        "text/plain; charset=utf-8"
    } else {
        "application/octet-stream"
    }
}

/// The content type a catalog image is served with: PNG or JPEG by
/// extension in any case; none for other files.
pub open spec fn spec_catalog_media_type(path: Seq<char>) -> Option<Seq<char>> {
    match crate::paths::spec_path_extension(path) {
        None => None,
        Some(_) => {
            let e = spec_lower_extension(path);
            if e == "png"@ {
                Some("image/png"@)
            } else if e == "jpg"@ || e == "jpeg"@ {
                Some("image/jpeg"@)
            } else {
                None
            }
        },
    }
}

/// The content type a catalog image is served with.
pub fn catalog_media_content_type(path: &str) -> (t: Option<&'static str>)
    ensures
        crate::errors::opt_str(t) == spec_catalog_media_type(path@),
{
    match crate::paths::path_extension(path) {
        None => None,
        Some(_) => {
            let e = lower_extension(path);
            if str_eq(e.as_str(), "png") {
                Some("image/png")
            } else if str_eq(e.as_str(), "jpg") || str_eq(e.as_str(), "jpeg") {
                Some("image/jpeg")
            } else {
                None
            }
        },
    }
}

/// A request for a bundle asset, made relative and safe: trimmed, without
/// leading `/`, not empty, without `..`.
pub open spec fn spec_sanitize_asset_path(raw: Seq<char>) -> Option<Seq<char>> {
    let t = spec_trim_start_while(spec_trim(raw), |c: char| c == '/');
    if t.len() == 0 || spec_path_has_parent_dir(t) {
        None
    } else {
        Some(t)
    }
}

/// The bundle path a request asks for, or `None` when it may not be served.
pub fn sanitize_asset_path(raw: &str) -> (r: Option<String>)
    ensures
        opt_seq(r) == spec_sanitize_asset_path(raw@),
{
    let t = trim(raw);
    let v = chars_of(t.as_str());
    let s = trim_start_char(&v, '/');
    if s.len() == 0 {
        return None;
    }
    let candidate = crate::chars::string_from_chars(s.as_slice());
    if path_has_parent_dir(candidate.as_str()) {
        return None;
    }
    Some(candidate)
}

/// A file lies inside a catalog root: its canonical path starts with the
/// canonical path of some root (`None` where a path does not resolve).
pub open spec fn spec_within_roots(canonical: Option<Seq<char>>, roots: Seq<Option<String>>) -> bool {
    match canonical {
        None => false,
        Some(p) => exists|k: int| 0 <= k < roots.len() && spec_root_holds(#[trigger] roots[k], p),
    }
}

/// A resolved root that `p` lies under.
pub open spec fn spec_root_holds(root: Option<String>, p: Seq<char>) -> bool {
    match root {
        Some(r) => spec_path_starts_with(p, r@),
        None => false,
    }
}

/// Whether a file lies inside a catalog root.
pub fn is_path_within_roots(canonical: &Option<String>, canonical_roots: &Vec<Option<String>>) -> (b: bool)
    ensures
        b == spec_within_roots(opt_seq(*canonical), canonical_roots@),
{
    let p = match canonical {
        Some(p) => p,
        None => return false,
    };
    let mut i: usize = 0;
    while i < canonical_roots.len()
        invariant
            0 <= i <= canonical_roots@.len(),
            opt_seq(*canonical) == Some(p@),
            forall|k: int| 0 <= k < i ==> !spec_root_holds(#[trigger] canonical_roots@[k], p@),
        decreases canonical_roots.len() - i,
    {
        match &canonical_roots[i] {
            Some(r) => {
                if path_starts_with(p.as_str(), r.as_str()) {
                    proof {
                        assert(spec_root_holds(canonical_roots@[i as int], p@));
                    }
                    return true;
                }
            },
            None => {},
        }
        i = i + 1;
    }
    false
}

/// A note the GUI may open: an absolute `.md` path inside a catalog root.
pub open spec fn spec_valid_markdown_request(
    path: Seq<char>,
    canonical: Option<Seq<char>>,
    roots: Seq<Option<String>>,
) -> bool {
    spec_path_is_absolute(path) && spec_lower_extension(path) == "md"@ && spec_within_roots(
        canonical,
        roots,
    )
}

/// Whether the GUI may open a note; `canonical` is the resolved `path`.
pub fn is_valid_markdown_request(
    path: &str,
    canonical: &Option<String>,
    canonical_roots: &Vec<Option<String>>,
) -> (b: bool)
    ensures
        b == spec_valid_markdown_request(path@, opt_seq(*canonical), canonical_roots@),
{
    if !path_is_absolute(path) {
        return false;
    }
    let e = lower_extension(path);
    if !str_eq(e.as_str(), "md") {
        return false;
    }
    is_path_within_roots(canonical, canonical_roots)
}

/// An image the GUI may show: an absolute `.png`, `.jpg` or `.jpeg` path
/// inside a catalog root.
pub open spec fn spec_valid_media_request(
    path: Seq<char>,
    canonical: Option<Seq<char>>,
    roots: Seq<Option<String>>,
) -> bool {
    let e = spec_lower_extension(path);
    spec_path_is_absolute(path) && (e == "png"@ || e == "jpg"@ || e == "jpeg"@)
        && spec_within_roots(canonical, roots)
}

/// Whether the GUI may show an image; `canonical` is the resolved `path`.
pub fn is_valid_media_request(
    path: &str,
    canonical: &Option<String>,
    canonical_roots: &Vec<Option<String>>,
) -> (b: bool)
    ensures
        b == spec_valid_media_request(path@, opt_seq(*canonical), canonical_roots@),
{
    if !path_is_absolute(path) {
        return false;
    }
    let e = lower_extension(path);
    if !(str_eq(e.as_str(), "png") || str_eq(e.as_str(), "jpg") || str_eq(e.as_str(), "jpeg")) {
        return false;
    }
    is_path_within_roots(canonical, canonical_roots)
}

/// What marking a file ready does, in order of preference.
#[derive(Debug)]
pub enum ReadyMarkAction {
    /// The file already has a ready decision: keep it, purge finished jobs.
    KeepExisting { job_id: String },
    /// The file's asset has a ready decision: refresh it for this file.
    RefreshAsset { job_id: String },
    /// A finished or stopped job of the file becomes its ready decision.
    Revive { job_id: String, from_status: String },
    /// A new ready decision is made.
    Create,
}

/// What marking a file ready does: keep the file's ready decision, else
/// refresh its asset's, else revive its latest revivable job, else create one.
pub fn ready_mark_action(
    ready_for_path: Option<String>,
    ready_for_asset: Option<String>,
    revivable: Option<(String, String)>,
) -> (a: ReadyMarkAction)
    ensures
        match ready_for_path {
            Some(id) => a matches ReadyMarkAction::KeepExisting { job_id } && job_id == id,
            None => match ready_for_asset {
                Some(id) => a matches ReadyMarkAction::RefreshAsset { job_id } && job_id == id,
                None => match revivable {
                    Some((id, st)) => a matches ReadyMarkAction::Revive { job_id, from_status }
                        && job_id == id && from_status == st,
                    None => a matches ReadyMarkAction::Create,
                },
            },
        },
{
    match ready_for_path {
        Some(job_id) => ReadyMarkAction::KeepExisting { job_id },
        None => match ready_for_asset {
            Some(job_id) => ReadyMarkAction::RefreshAsset { job_id },
            None => match revivable {
                Some((job_id, from_status)) => ReadyMarkAction::Revive { job_id, from_status },
                None => ReadyMarkAction::Create,
            },
        },
    }
}

} // verus!
