//! The media of a note: the preview of each image reference, the issues a
//! preview reports, and the resolution of all references before a publish.
use vstd::prelude::*;

use crate::errors::{is_validation, validation, AppError};
use crate::note::{lemma_string_views_push, spec_string_views};
use crate::publish::{
    has_allowed_media_extension, opt_view, resolve_existing_media_path, spec_first_existing,
    spec_has_allowed_media_extension, spec_media_candidates,
};
use crate::text::{concat3, spec_trim, trim};

verus! {

/// What the preview shows of one media reference.
#[derive(Debug)]
pub struct MediaPreviewItem {
    pub reference: String,
    pub resolved_path: Option<String>,
    pub exists: bool,
    pub valid_extension: bool,
    pub error: Option<String>,
}

/// The file a reference resolves to, if any.
pub open spec fn spec_resolved(
    note_path: Seq<char>,
    reference: Seq<char>,
    lookups: Seq<Seq<char>>,
    existing: Seq<Seq<char>>,
) -> Option<Seq<char>> {
    spec_first_existing(spec_media_candidates(note_path, reference, lookups), existing)
}

/// The reason shown for a reference with another extension than an image's.
pub open spec fn spec_unsupported_note() -> Seq<char> {
    "unsupported extension (allowed: .png, .jpg, .jpeg)"@
}

/// The reason shown for a reference that no candidate file satisfies.
pub open spec fn spec_not_found_note() -> Seq<char> {
    "file not found (note folder first, then [media].lookup_paths)"@
}

/// `item` is the preview of `reference`: an image extension is checked first,
/// then the file is looked for.
pub open spec fn is_preview_of(
    item: MediaPreviewItem,
    note_path: Seq<char>,
    reference: Seq<char>,
    lookups: Seq<Seq<char>>,
    existing: Seq<Seq<char>>,
) -> bool {
    &&& item.reference@ == reference
    &&& item.valid_extension == spec_has_allowed_media_extension(reference)
    &&& if !spec_has_allowed_media_extension(reference) {
        &&& item.resolved_path is None
        &&& !item.exists
        &&& opt_view(item.error) == Some(spec_unsupported_note())
    } else {
        match spec_resolved(note_path, reference, lookups, existing) {
            Some(p) => {
                &&& opt_view(item.resolved_path) == Some(p)
                &&& item.exists
                &&& item.error is None
            },
            None => {
                &&& item.resolved_path is None
                &&& !item.exists
                &&& opt_view(item.error) == Some(spec_not_found_note())
            },
        }
    }
}

/// The preview of one media reference of a note.
pub fn media_preview_item(
    note_path: &str,
    reference: &str,
    media_lookup_paths: &Vec<String>,
    existing_files: &Vec<String>,
) -> (item: MediaPreviewItem)
    ensures
        is_preview_of(
            item,
            note_path@,
            reference@,
            spec_string_views(media_lookup_paths@),
            spec_string_views(existing_files@),
        ),
{
    if !has_allowed_media_extension(reference) {
        return MediaPreviewItem {
            reference: reference.to_owned(),
            resolved_path: None,
            exists: false,
            valid_extension: false,
            error: Some("unsupported extension (allowed: .png, .jpg, .jpeg)".to_owned()),
        };
    }
    match resolve_existing_media_path(note_path, reference, media_lookup_paths, existing_files) {
        Some(path) => MediaPreviewItem {
            reference: reference.to_owned(),
            resolved_path: Some(path),
            exists: true,
            valid_extension: true,
            error: None,
        },
        None => MediaPreviewItem {
            reference: reference.to_owned(),
            resolved_path: None,
            exists: false,
            valid_extension: true,
            error: Some("file not found (note folder first, then [media].lookup_paths)".to_owned()),
        },
    }
}

/// The preview of each media reference, in order.
pub fn collect_media_preview(
    note_path: &str,
    refs: &Vec<String>,
    media_lookup_paths: &Vec<String>,
    existing_files: &Vec<String>,
) -> (items: Vec<MediaPreviewItem>)
    ensures
        items@.len() == refs@.len(),
        forall|k: int|
            0 <= k < refs@.len() ==> is_preview_of(
                #[trigger] items@[k],
                note_path@,
                refs@[k]@,
                spec_string_views(media_lookup_paths@),
                spec_string_views(existing_files@),
            ),
{
    let mut items: Vec<MediaPreviewItem> = Vec::new();
    let mut i: usize = 0;
    while i < refs.len()
        invariant
            0 <= i <= refs@.len(),
            items@.len() == i,
            forall|k: int|
                0 <= k < i ==> is_preview_of(
                    #[trigger] items@[k],
                    note_path@,
                    refs@[k]@,
                    spec_string_views(media_lookup_paths@),
                    spec_string_views(existing_files@),
                ),
        decreases refs.len() - i,
    {
        let item = media_preview_item(note_path, refs[i].as_str(), media_lookup_paths, existing_files);
        items.push(item);
        i = i + 1;
    }
    items
}

/// Whether some preview item has another extension than an image's.
pub open spec fn spec_any_invalid_extension(media: Seq<MediaPreviewItem>) -> bool {
    exists|k: int| 0 <= k < media.len() && !(#[trigger] media[k]).valid_extension
}

/// Whether some preview item names a file that was not found.
pub open spec fn spec_any_missing(media: Seq<MediaPreviewItem>) -> bool {
    exists|k: int| 0 <= k < media.len() && !(#[trigger] media[k]).exists
}

/// The issues a preview reports, in this order: an empty publish text, a
/// reference with another extension, a missing file.
pub open spec fn spec_preview_issues(publish_text: Seq<char>, media: Seq<MediaPreviewItem>) -> Seq<Seq<char>> {
    (if spec_trim(publish_text).len() == 0 { seq!["publish_text_empty"@] } else { seq![] })
        + (if spec_any_invalid_extension(media) { seq!["unsupported_media_extension"@] } else { seq![] })
        + (if spec_any_missing(media) { seq!["missing_media_file"@] } else { seq![] })
}

fn any_invalid_extension(media: &Vec<MediaPreviewItem>) -> (b: bool)
    ensures
        b == spec_any_invalid_extension(media@),
{
    let mut i: usize = 0;
    while i < media.len()
        invariant
            0 <= i <= media@.len(),
            forall|k: int| 0 <= k < i ==> (#[trigger] media@[k]).valid_extension,
        decreases media.len() - i,
    {
        if !media[i].valid_extension {
            return true;
        }
        i = i + 1;
    }
    false
}

fn any_missing(media: &Vec<MediaPreviewItem>) -> (b: bool)
    ensures
        b == spec_any_missing(media@),
{
    let mut i: usize = 0;
    while i < media.len()
        invariant
            0 <= i <= media@.len(),
            forall|k: int| 0 <= k < i ==> (#[trigger] media@[k]).exists,
        decreases media.len() - i,
    {
        if !media[i].exists {
            return true;
        }
        i = i + 1;
    }
    false
}

/// The issues of a preview: `publish_text_empty` when the publish text is
/// blank, `unsupported_media_extension` when a reference is no image,
/// `missing_media_file` when a file is not found.
pub fn preview_issues(publish_text: &str, media: &Vec<MediaPreviewItem>) -> (issues: Vec<String>)
    ensures
        spec_string_views(issues@) == spec_preview_issues(publish_text@, media@),
{
    let mut issues: Vec<String> = Vec::new();
    let trimmed = trim(publish_text);
    if trimmed.as_str().unicode_len() == 0 {
        let ghost before = issues@;
        let s = "publish_text_empty".to_owned();
        issues.push(s);
        proof {
            lemma_string_views_push(before, s);
        }
    }
    let ghost first = spec_string_views(issues@);
    if any_invalid_extension(media) {
        let ghost before = issues@;
        let s = "unsupported_media_extension".to_owned();
        issues.push(s);
        proof {
            lemma_string_views_push(before, s);
        }
    }
    let ghost second = spec_string_views(issues@);
    if any_missing(media) {
        let ghost before = issues@;
        let s = "missing_media_file".to_owned();
        issues.push(s);
        proof {
            lemma_string_views_push(before, s);
        }
    }
    proof {
        let a: Seq<Seq<char>> = if spec_trim(publish_text@).len() == 0 {
            seq!["publish_text_empty"@]
        } else {
            seq![]
        };
        let b: Seq<Seq<char>> = if spec_any_invalid_extension(media@) {
            seq!["unsupported_media_extension"@]
        } else {
            seq![]
        };
        let c: Seq<Seq<char>> = if spec_any_missing(media@) {
            seq!["missing_media_file"@]
        } else {
            seq![]
        };
        assert(first =~= a);
        assert(second =~= a + b);
        assert(spec_string_views(issues@) =~= a + b + c);
    }
    issues
}

/// A reference that can be published: an image that was found.
pub open spec fn spec_media_ok(
    note_path: Seq<char>,
    reference: Seq<char>,
    lookups: Seq<Seq<char>>,
    existing: Seq<Seq<char>>,
) -> bool {
    spec_has_allowed_media_extension(reference) && spec_resolved(note_path, reference, lookups, existing) is Some
}

/// The error a reference that cannot be published gives.
pub open spec fn is_media_error(
    e: AppError,
    note_path: Seq<char>,
    reference: Seq<char>,
    lookups: Seq<Seq<char>>,
    existing: Seq<Seq<char>>,
) -> bool {
    if !spec_has_allowed_media_extension(reference) {
        is_validation(
            e,
            "Unsupported media extension for '"@ + reference + "'. Allowed: .png, .jpg, .jpeg"@,
            Some("Convert image to allowed extension and retry."@),
            None,
        )
    } else {
        is_validation(
            e,
            "Referenced media file not found: '"@ + reference + "'"@,
            Some("Place media in note folder or configure [media].lookup_paths in config.toml."@),
            None,
        )
    }
}

/// The files of all media references, in order; the first reference that is
/// no image, or whose file is not found, fails the whole.
pub fn resolve_media_paths(
    note_path: &str,
    refs: &Vec<String>,
    media_lookup_paths: &Vec<String>,
    existing_files: &Vec<String>,
) -> (r: Result<Vec<String>, AppError>)
    ensures
        r is Ok <==> forall|k: int|
            0 <= k < refs@.len() ==> spec_media_ok(
                note_path@,
                #[trigger] refs@[k]@,
                spec_string_views(media_lookup_paths@),
                spec_string_views(existing_files@),
            ),
        r matches Ok(v) ==> v@.len() == refs@.len() && forall|k: int|
            0 <= k < refs@.len() ==> Some(#[trigger] v@[k]@) == spec_resolved(
                note_path@,
                refs@[k]@,
                spec_string_views(media_lookup_paths@),
                spec_string_views(existing_files@),
            ),
        r matches Err(e) ==> exists|k: int|
            0 <= k < refs@.len() && !spec_media_ok(
                note_path@,
                #[trigger] refs@[k]@,
                spec_string_views(media_lookup_paths@),
                spec_string_views(existing_files@),
            ) && (forall|j: int|
                0 <= j < k ==> spec_media_ok(
                    note_path@,
                    #[trigger] refs@[j]@,
                    spec_string_views(media_lookup_paths@),
                    spec_string_views(existing_files@),
                )) && is_media_error(
                e,
                note_path@,
                refs@[k]@,
                spec_string_views(media_lookup_paths@),
                spec_string_views(existing_files@),
            ),
{
    let ghost lookups = spec_string_views(media_lookup_paths@);
    let ghost existing = spec_string_views(existing_files@);
    let mut resolved: Vec<String> = Vec::new();
    let mut i: usize = 0;
    while i < refs.len()
        invariant
            0 <= i <= refs@.len(),
            lookups == spec_string_views(media_lookup_paths@),
            existing == spec_string_views(existing_files@),
            resolved@.len() == i,
            forall|k: int|
                0 <= k < i ==> spec_media_ok(note_path@, #[trigger] refs@[k]@, lookups, existing),
            forall|k: int|
                0 <= k < i ==> Some(#[trigger] resolved@[k]@) == spec_resolved(
                    note_path@,
                    refs@[k]@,
                    lookups,
                    existing,
                ),
        decreases refs.len() - i,
    {
        let reference = refs[i].as_str();
        if !has_allowed_media_extension(reference) {
            let message = concat3(
                "Unsupported media extension for '",
                reference,
                "'. Allowed: .png, .jpg, .jpeg",
            );
            let e = validation(message, Some("Convert image to allowed extension and retry."), None);
            proof {
                assert(!spec_media_ok(note_path@, refs@[i as int]@, lookups, existing));
            }
            return Err(e);
        }
        match resolve_existing_media_path(note_path, reference, media_lookup_paths, existing_files) {
            Some(path) => {
                resolved.push(path);
            },
            None => {
                let message = concat3("Referenced media file not found: '", reference, "'");
                let e = validation(
                    message,
                    Some(
                        "Place media in note folder or configure [media].lookup_paths in config.toml.",
                    ),
                    None,
                );
                proof {
                    assert(!spec_media_ok(note_path@, refs@[i as int]@, lookups, existing));
                }
                return Err(e);
            },
        }
        i = i + 1;
    }
    Ok(resolved)
}

} // verus!
