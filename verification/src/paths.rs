//! File-system paths, held as strings. What `std::path` makes of a path is
//! named, not restated; the library composes those answers.
use vstd::prelude::*;

verus! {

/// `Path::new(base).join(rel)`, displayed.
pub uninterp spec fn spec_path_join(base: Seq<char>, rel: Seq<char>) -> Seq<char>;

/// `Path::new(p).parent()`, displayed.
pub uninterp spec fn spec_path_parent(p: Seq<char>) -> Option<Seq<char>>;

/// `Path::new(p).extension()` (the part after the last dot of the file name).
pub uninterp spec fn spec_path_extension(p: Seq<char>) -> Option<Seq<char>>;

/// `Path::new(p).is_absolute()`.
pub uninterp spec fn spec_path_is_absolute(p: Seq<char>) -> bool;

/// `Path::new(p).starts_with(base)`: `base` is a component-wise prefix of `p`.
pub uninterp spec fn spec_path_starts_with(p: Seq<char>, base: Seq<char>) -> bool;

/// The kind of a path component, as `std::path::Component` tells them apart.
#[derive(Clone, Copy, PartialEq, Eq, Structural, Debug)]
pub enum PathPartKind {
    Prefix,
    RootDir,
    CurDir,
    ParentDir,
    Normal,
}

/// `Path::new(p).components()`: each component's kind and its text.
pub uninterp spec fn spec_path_components(p: Seq<char>) -> Seq<(PathPartKind, Seq<char>)>;

/// The view of listed components.
pub open spec fn spec_parts_view(v: Seq<(PathPartKind, String)>) -> Seq<(PathPartKind, Seq<char>)> {
    v.map_values(|x: (PathPartKind, String)| (x.0, x.1@))
}

/// A path holds a `..` component.
pub open spec fn spec_path_has_parent_dir(p: Seq<char>) -> bool {
    exists|k: int| 0 <= k < spec_path_components(p).len() && (#[trigger] spec_path_components(p)[k]).0
        == PathPartKind::ParentDir
}

/// `std::path::Path::join`: `rel` appended to `base` with a separator, or `rel`
/// alone when it is absolute. The contract names the result only.
#[verifier::external_body]
pub(crate) fn path_join(base: &str, rel: &str) -> (r: String)
    ensures
        r@ == spec_path_join(base@, rel@),
{
    std::path::Path::new(base).join(rel).to_string_lossy().into_owned()
}

/// `std::path::Path::parent`: the path without its last component, `None` for a
/// root or an empty path. The contract names the result only.
#[verifier::external_body]
pub(crate) fn path_parent(p: &str) -> (r: Option<String>)
    ensures
        match r {
            Some(s) => spec_path_parent(p@) == Some(s@),
            None => spec_path_parent(p@) is None,
        },
{
    std::path::Path::new(p).parent().map(|x| x.to_string_lossy().into_owned())
}

/// `std::path::Path::extension`. The contract names the result only.
#[verifier::external_body]
pub(crate) fn path_extension(p: &str) -> (r: Option<String>)
    ensures
        match r {
            Some(s) => spec_path_extension(p@) == Some(s@),
            None => spec_path_extension(p@) is None,
        },
{
    std::path::Path::new(p).extension().map(|x| x.to_string_lossy().into_owned())
}

/// `std::path::Path::is_absolute`. The contract names the result only.
#[verifier::external_body]
pub(crate) fn path_is_absolute(p: &str) -> (r: bool)
    ensures
        r == spec_path_is_absolute(p@),
{
    std::path::Path::new(p).is_absolute()
}

/// `std::path::Path::starts_with`. The contract names the result only.
#[verifier::external_body]
pub(crate) fn path_starts_with(p: &str, base: &str) -> (r: bool)
    ensures
        r == spec_path_starts_with(p@, base@),
{
    std::path::Path::new(p).starts_with(base)
}

/// `std::path::Path::components`: each component with its kind (one arm per
/// `Component` variant) and its text (`as_os_str`, displayed). The contract
/// names the list only.
#[verifier::external_body]
pub(crate) fn path_components(p: &str) -> (v: Vec<(PathPartKind, String)>)
    ensures
        spec_parts_view(v@) == spec_path_components(p@),
{
    let mut v = Vec::new();
    for c in std::path::Path::new(p).components() {
        let kind = match c {
            std::path::Component::Prefix(_) => PathPartKind::Prefix,
            std::path::Component::RootDir => PathPartKind::RootDir,
            std::path::Component::CurDir => PathPartKind::CurDir,
            std::path::Component::ParentDir => PathPartKind::ParentDir,
            std::path::Component::Normal(_) => PathPartKind::Normal,
        };
        v.push((kind, c.as_os_str().to_string_lossy().into_owned()));
    }
    v
}

/// Whether a path holds a `..` component.
pub fn path_has_parent_dir(p: &str) -> (r: bool)
    ensures
        r == spec_path_has_parent_dir(p@),
{
    let parts = path_components(p);
    let ghost view = spec_parts_view(parts@);
    let mut i: usize = 0;
    while i < parts.len()
        invariant
            view == spec_parts_view(parts@),
            view == spec_path_components(p@),
            0 <= i <= parts@.len(),
            forall|k: int| 0 <= k < i ==> (#[trigger] view[k]).0 != PathPartKind::ParentDir,
        decreases parts.len() - i,
    {
        if parts[i].0 == PathPartKind::ParentDir {
            proof {
                assert(view[i as int].0 == PathPartKind::ParentDir);
            }
            return true;
        }
        i = i + 1;
    }
    false
}

} // verus!
