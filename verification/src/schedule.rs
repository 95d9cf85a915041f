//! Scheduling decisions of the catalog GUI and the job commands: which
//! platforms a decision covers and how they are stored, which platform a
//! job is scheduled for, the multi-platform schedule, the ready-mark
//! cascade, and the catalog's requests, statuses and content types.
use vstd::prelude::*;

use crate::chars::str_eq;
use crate::errors::{is_validation, opt_seq, validation, AppError};
use crate::jobs::{spec_parse_platform, spec_platform_name, PlatformArg};
use crate::json::{spec_as_bool, spec_as_str, spec_get_opt, Json, JsonValue};
use crate::lines::{join_lines, spec_join};
use crate::note::{lemma_string_views_push, spec_string_views};
use crate::paths::{path_has_parent_dir, path_is_absolute, path_starts_with, spec_path_has_parent_dir,
    spec_path_is_absolute, spec_path_starts_with};
use crate::text::{
    ascii_lowercase, concat2, concat3, spec_ascii_lowercase, spec_trim, spec_trim_start_while, trim,
    trim_start_char,
};

verus! {

/// The JSON text `serde_json::to_string` writes for a list of strings.
pub uninterp spec fn spec_json_string_list(items: Seq<Seq<char>>) -> Seq<char>;

/// The list of strings `serde_json::from_str` reads from `raw`, if it reads one.
pub uninterp spec fn spec_parse_string_list(raw: Seq<char>) -> Option<Seq<Seq<char>>>;

/// `serde_json::to_string` of a list of strings, `None` where it reports an
/// error. A list of strings always serializes, so the contract states that it
/// does; it names the text and states that `serde_json::from_str` reads the
/// same list back from it.
#[verifier::external_body]
fn json_string_list(items: &Vec<String>) -> (r: Option<String>)
    ensures
        r is Some,
        r matches Some(s) ==> s@ == spec_json_string_list(spec_string_views(items@)) && spec_parse_string_list(s@)
            == Some(spec_string_views(items@)),
{
    serde_json::to_string(items).ok()
}

/// `serde_json::from_str::<Vec<String>>`, `None` where it reports an error.
/// The contract names the result only.
#[verifier::external_body]
fn parse_string_list(raw: &str) -> (r: Option<Vec<String>>)
    ensures
        match r {
            Some(v) => spec_parse_string_list(raw@) == Some(spec_string_views(v@)),
            None => spec_parse_string_list(raw@) is None,
        },
{
    serde_json::from_str::<Vec<String>>(raw).ok()
}

/// The names of platforms, in order.
pub open spec fn spec_platform_names(ps: Seq<PlatformArg>) -> Seq<Seq<char>> {
    ps.map_values(|p: PlatformArg| spec_platform_name(p))
}

fn platform_names(ps: &Vec<PlatformArg>) -> (names: Vec<String>)
    ensures
        spec_string_views(names@) == spec_platform_names(ps@),
{
    let mut names: Vec<String> = Vec::new();
    let mut i: usize = 0;
    while i < ps.len()
        invariant
            0 <= i <= ps@.len(),
            spec_string_views(names@) == spec_platform_names(ps@.subrange(0, i as int)),
        decreases ps.len() - i,
    {
        let s = ps[i].as_str().to_owned();
        let ghost before = names@;
        names.push(s);
        proof {
            lemma_string_views_push(before, s);
            assert(spec_platform_names(ps@.subrange(0, i + 1)) =~= spec_platform_names(
                ps@.subrange(0, i as int),
            ).push(s@));
        }
        i = i + 1;
    }
    proof {
        assert(ps@.subrange(0, ps@.len() as int) =~= ps@);
    }
    names
}

/// How a decision stores its platforms: their names as a JSON list.
pub fn selected_platforms_json(platforms: &Vec<PlatformArg>) -> (s: String)
    ensures
        s@ == spec_json_string_list(spec_platform_names(platforms@)),
        spec_parse_string_list(s@) == Some(spec_platform_names(platforms@)),
{
    let names = platform_names(platforms);
    match json_string_list(&names) {
        Some(s) => s,
        None => "[]".to_owned(),
    }
}

/// The platform names among `values`, in order, each once; other values drop.
pub open spec fn spec_known_platforms(values: Seq<Seq<char>>) -> Seq<Seq<char>>
    decreases values.len(),
{
    if values.len() == 0 {
        seq![]
    } else {
        let prev = spec_known_platforms(values.drop_last());
        let v = values.last();
        if (v == "linkedin"@ || v == "x"@) && !prev.contains(v) {
            prev.push(v)
        } else {
            prev
        }
    }
}

/// The platforms a stored decision names: its JSON list, unknown names and
/// repeats left out; nothing when the text is no list of strings.
pub open spec fn spec_selected_platforms_from_json(raw: Seq<char>) -> Seq<Seq<char>> {
    match spec_parse_string_list(raw) {
        Some(values) => spec_known_platforms(values),
        None => seq![],
    }
}

fn contains_name(items: &Vec<String>, x: &str) -> (b: bool)
    ensures
        b == spec_string_views(items@).contains(x@),
{
    let mut i: usize = 0;
    while i < items.len()
        invariant
            0 <= i <= items@.len(),
            forall|k: int| 0 <= k < i ==> items@[k]@ != x@,
        decreases items.len() - i,
    {
        if str_eq(items[i].as_str(), x) {
            proof {
                assert(spec_string_views(items@)[i as int] == x@);
            }
            return true;
        }
        i = i + 1;
    }
    proof {
        if spec_string_views(items@).contains(x@) {
            let k = choose|k: int|
                0 <= k < spec_string_views(items@).len() && spec_string_views(items@)[k] == x@;
            assert(items@[k]@ == x@);
        }
    }
    false
}

/// The platforms a stored decision names.
pub fn selected_platforms_from_json(raw: &str) -> (out: Vec<String>)
    ensures
        spec_string_views(out@) == spec_selected_platforms_from_json(raw@),
{
    let values = match parse_string_list(raw) {
        Some(v) => v,
        None => {
            let out: Vec<String> = Vec::new();
            proof {
                assert(spec_string_views(out@) =~= Seq::<Seq<char>>::empty());
            }
            return out;
        },
    };
    let ghost vs = spec_string_views(values@);
    let mut out: Vec<String> = Vec::new();
    proof {
        assert(spec_string_views(out@) =~= Seq::<Seq<char>>::empty());
    }
    let mut i: usize = 0;
    while i < values.len()
        invariant
            0 <= i <= values@.len(),
            vs == spec_string_views(values@),
            spec_string_views(out@) == spec_known_platforms(vs.subrange(0, i as int)),
        decreases values.len() - i,
    {
        let v = values[i].as_str();
        proof {
            assert(vs.subrange(0, i + 1).drop_last() =~= vs.subrange(0, i as int));
            assert(vs.subrange(0, i + 1).last() == v@);
        }
        if (str_eq(v, "linkedin") || str_eq(v, "x")) && !contains_name(&out, v) {
            let ghost before = out@;
            let s = v.to_owned();
            out.push(s);
            proof {
                lemma_string_views_push(before, s);
            }
        }
        i = i + 1;
    }
    proof {
        assert(vs.subrange(0, vs.len() as int) =~= vs);
    }
    out
}

proof fn lemma_known_platforms_of_names(ps: Seq<PlatformArg>)
    requires
        forall|i: int, j: int| 0 <= i < j < ps.len() ==> ps[i] != ps[j],
    ensures
        spec_known_platforms(spec_platform_names(ps)) == spec_platform_names(ps),
    decreases ps.len(),
{
    reveal_strlit("linkedin");
    reveal_strlit("x");
    assert("x"@.len() == 1 && "linkedin"@.len() == 8);
    if ps.len() > 0 {
        let init = ps.drop_last();
        lemma_known_platforms_of_names(init);
        assert(spec_platform_names(ps).drop_last() =~= spec_platform_names(init));
        let last = ps.last();
        assert(spec_platform_names(ps).last() == spec_platform_names(ps)[ps.len() - 1]);
        assert(!spec_platform_names(init).contains(spec_platform_name(last))) by {
            if spec_platform_names(init).contains(spec_platform_name(last)) {
                let k = choose|k: int|
                    0 <= k < spec_platform_names(init).len() && spec_platform_names(init)[k]
                        == spec_platform_name(last);
                assert(spec_platform_name(init[k]) == spec_platform_name(last));
                assert(init[k] == ps[k]);
                assert(ps[k] != ps[ps.len() - 1]);
            }
        }
        assert(spec_platform_names(init).push(spec_platform_name(last)) =~= spec_platform_names(
            ps,
        ));
    } else {
        assert(spec_platform_names(ps) =~= Seq::<Seq<char>>::empty());
    }
}

/// A decision's stored platforms read back as they were stored, when they
/// were stored without repeats: `stored` is what `selected_platforms_json`
/// wrote for `ps`, which reads back as their names.
pub proof fn lemma_selected_platforms_roundtrip(ps: Seq<PlatformArg>, stored: Seq<char>)
    requires
        forall|i: int, j: int| 0 <= i < j < ps.len() ==> ps[i] != ps[j],
        spec_parse_string_list(stored) == Some(spec_platform_names(ps)),
    ensures
        spec_selected_platforms_from_json(stored) == spec_platform_names(ps),
{
    lemma_known_platforms_of_names(ps);
}

/// The platform a job is scheduled for: the one asked for, else the job's
/// own, else the single one of its decision; a decision of several or none
/// needs `--platform`.
pub open spec fn spec_schedule_platform(
    r: Result<String, AppError>,
    requested: Option<PlatformArg>,
    existing: Option<Seq<char>>,
    selected: Seq<Seq<char>>,
) -> bool {
    match requested {
        Some(p) => r matches Ok(s) && s@ == spec_platform_name(p),
        None => match existing {
            Some(e) => r matches Ok(s) && s@ == e,
            None => if selected.len() == 1 {
                r matches Ok(s) && s@ == selected[0]
            } else if selected.len() > 1 {
                r matches Err(e) && is_validation(
                    e,
                    "This decision has multiple platforms. Pass --platform when scheduling."@,
                    Some("Use --platform linkedin or --platform x."@),
                    None,
                )
            } else {
                r matches Err(e) && is_validation(
                    e,
                    "This ready job has no platform. Pass --platform when scheduling."@,
                    Some("Use --platform linkedin or --platform x."@),
                    None,
                )
            },
        },
    }
}

/// The platform passed with `--platform` wins: a job scheduled with
/// `--platform x` is scheduled for `x`, and with `--platform linkedin` for
/// `linkedin`, whatever platform the job already stores and whatever its
/// decision names; so two such calls that differ only there agree.
pub proof fn lemma_requested_platform_wins(
    p: PlatformArg,
    existing: Option<Seq<char>>,
    selected: Seq<Seq<char>>,
    r: Result<String, AppError>,
    other_existing: Option<Seq<char>>,
    other_selected: Seq<Seq<char>>,
    other: Result<String, AppError>,
)
    requires
        spec_schedule_platform(r, Some(p), existing, selected),
        spec_schedule_platform(other, Some(p), other_existing, other_selected),
    ensures
        r is Ok,
        p == PlatformArg::X ==> (r matches Ok(s) && s@ == "x"@),
        p == PlatformArg::Linkedin ==> (r matches Ok(s) && s@ == "linkedin"@),
        r matches Ok(s) && (other matches Ok(t) && s@ == t@),
{
}

/// The platform a job is scheduled for; `selected` is what its decision names.
pub fn schedule_platform(
    requested: Option<PlatformArg>,
    existing: &Option<String>,
    selected: &Vec<String>,
) -> (r: Result<String, AppError>)
    ensures
        spec_schedule_platform(r, requested, opt_seq(*existing), spec_string_views(selected@)),
{
    match requested {
        Some(p) => Ok(p.as_str().to_owned()),
        None => match existing {
            Some(e) => Ok(e.clone()),
            None => {
                if selected.len() == 1 {
                    Ok(selected[0].clone())
                } else if selected.len() > 1 {
                    Err(
                        validation(
                            "This decision has multiple platforms. Pass --platform when scheduling.".to_owned(),
                            Some("Use --platform linkedin or --platform x."),
                            None,
                        ),
                    )
                } else {
                    Err(
                        validation(
                            "This ready job has no platform. Pass --platform when scheduling.".to_owned(),
                            Some("Use --platform linkedin or --platform x."),
                            None,
                        ),
                    )
                }
            },
        },
    }
}

/// The publish mode stored with a platform name: `single` for `x`.
pub fn publish_mode_for_name(platform: &str) -> (m: Option<String>)
    ensures
        opt_seq(m) == if platform@ == "x"@ {
            Some("single"@)
        } else {
            None
        },
{
    if str_eq(platform, "x") {
        Some("single".to_owned())
    } else {
        None
    }
}

/// A platform name as the GUI sends it: trimmed, in any case.
pub open spec fn spec_parse_platform_loose(raw: Seq<char>) -> Option<PlatformArg> {
    spec_parse_platform(spec_ascii_lowercase(spec_trim(raw)))
}

/// A platform name as the GUI sends it.
pub fn parse_platform_loose(raw: &str) -> (p: Option<PlatformArg>)
    ensures
        p == spec_parse_platform_loose(raw@),
{
    let t = trim(raw);
    let l = ascii_lowercase(t.as_str());
    crate::jobs::parse_platform_arg(l.as_str())
}

/// The platforms of a GUI request, in order, each once; the first name that
/// is no platform fails the request.
pub open spec fn spec_normalize_platforms(raw: Seq<Seq<char>>) -> Result<Seq<PlatformArg>, Seq<char>>
    decreases raw.len(),
{
    if raw.len() == 0 {
        Ok(seq![])
    } else {
        match spec_normalize_platforms(raw.drop_last()) {
            Err(m) => Err(m),
            Ok(prev) => match spec_parse_platform_loose(raw.last()) {
                None => Err("Invalid platform: "@ + raw.last() + ". Use linkedin or x."@),
                Some(p) => if prev.contains(p) {
                    Ok(prev)
                } else {
                    Ok(prev.push(p))
                },
            },
        }
    }
}

/// The platforms of a GUI request.
pub fn normalize_platform_list(raw_items: &Vec<String>) -> (r: Result<Vec<PlatformArg>, String>)
    ensures
        match spec_normalize_platforms(spec_string_views(raw_items@)) {
            Ok(ps) => r matches Ok(v) && v@ == ps,
            Err(m) => r matches Err(e) && e@ == m,
        },
{
    let ghost raw = spec_string_views(raw_items@);
    let mut out: Vec<PlatformArg> = Vec::new();
    let mut i: usize = 0;
    while i < raw_items.len()
        invariant
            0 <= i <= raw_items@.len(),
            raw == spec_string_views(raw_items@),
            spec_normalize_platforms(raw.subrange(0, i as int)) == Ok::<Seq<PlatformArg>, Seq<char>>(
                out@,
            ),
        decreases raw_items.len() - i,
    {
        proof {
            assert(raw.subrange(0, i + 1).drop_last() =~= raw.subrange(0, i as int));
            assert(raw.subrange(0, i + 1).last() == raw_items@[i as int]@);
        }
        match parse_platform_loose(raw_items[i].as_str()) {
            None => {
                let message = concat3("Invalid platform: ", raw_items[i].as_str(), ". Use linkedin or x.");
                proof {
                    lemma_normalize_error_sticks(raw, i + 1);
                }
                return Err(message);
            },
            Some(p) => {
                let mut seen = false;
                let mut k: usize = 0;
                while k < out.len()
                    invariant
                        0 <= k <= out@.len(),
                        seen <==> exists|j: int| 0 <= j < k && out@[j] == p,
                    decreases out.len() - k,
                {
                    if out[k] == p {
                        seen = true;
                    }
                    k = k + 1;
                }
                proof {
                    if seen {
                        let j = choose|j: int| 0 <= j < k && out@[j] == p;
                        assert(out@.contains(p));
                    } else {
                        assert(!out@.contains(p)) by {
                            if out@.contains(p) {
                                let j = choose|j: int| 0 <= j < out@.len() && out@[j] == p;
                                assert(out@[j] == p);
                            }
                        }
                    }
                }
                if !seen {
                    out.push(p);
                }
            },
        }
        i = i + 1;
    }
    proof {
        assert(raw.subrange(0, raw.len() as int) =~= raw);
    }
    Ok(out)
}

proof fn lemma_normalize_error_sticks(raw: Seq<Seq<char>>, n: int)
    requires
        0 < n <= raw.len(),
        spec_normalize_platforms(raw.subrange(0, n)) is Err,
    ensures
        spec_normalize_platforms(raw) == spec_normalize_platforms(raw.subrange(0, n)),
    decreases raw.len() - n,
{
    if n < raw.len() {
        assert(raw.subrange(0, n + 1).drop_last() =~= raw.subrange(0, n));
        lemma_normalize_error_sticks(raw, n + 1);
    } else {
        assert(raw.subrange(0, n) =~= raw);
    }
}

/// Decisions that can be scheduled for several platforms at once: those in
/// the decision queue (ready, blocked, canceled, disabled).
pub open spec fn spec_multi_schedulable(status: Seq<char>) -> bool {
    status == "ready"@ || status == "blocked"@ || status == "canceled"@ || status == "disabled"@
}

/// The platforms a multi-platform schedule covers: those asked for, else
/// those the decision names; the decision must be in the queue, and some
/// platform must be left.
pub open spec fn spec_multi_schedule_platforms(
    r: Result<Vec<PlatformArg>, String>,
    requested: Seq<PlatformArg>,
    source_status: Seq<char>,
    selected: Seq<Seq<char>>,
) -> bool {
    if !spec_multi_schedulable(source_status) {
        r matches Err(e) && e@ == "Only decision-queue jobs can be multi-scheduled."@
    } else {
        let ps = if requested.len() == 0 {
            spec_parsed_platforms(selected)
        } else {
            requested
        };
        if ps.len() == 0 {
            r matches Err(e) && e@ == "Select at least one platform before scheduling."@
        } else {
            r matches Ok(v) && v@ == ps
        }
    }
}

/// The platforms among names, in order; other names drop.
pub open spec fn spec_parsed_platforms(names: Seq<Seq<char>>) -> Seq<PlatformArg>
    decreases names.len(),
{
    if names.len() == 0 {
        seq![]
    } else {
        let prev = spec_parsed_platforms(names.drop_last());
        match crate::jobs::spec_parse_platform(names.last()) {
            Some(p) => prev.push(p),
            None => prev,
        }
    }
}

fn parsed_platforms(names: &Vec<String>) -> (out: Vec<PlatformArg>)
    ensures
        out@ == spec_parsed_platforms(spec_string_views(names@)),
{
    let ghost ns = spec_string_views(names@);
    let mut out: Vec<PlatformArg> = Vec::new();
    let mut i: usize = 0;
    while i < names.len()
        invariant
            0 <= i <= names@.len(),
            ns == spec_string_views(names@),
            out@ == spec_parsed_platforms(ns.subrange(0, i as int)),
        decreases names.len() - i,
    {
        proof {
            assert(ns.subrange(0, i + 1).drop_last() =~= ns.subrange(0, i as int));
            assert(ns.subrange(0, i + 1).last() == names@[i as int]@);
        }
        match crate::jobs::parse_platform_arg(names[i].as_str()) {
            Some(p) => out.push(p),
            None => {},
        }
        i = i + 1;
    }
    proof {
        assert(ns.subrange(0, ns.len() as int) =~= ns);
    }
    out
}

/// The platforms a multi-platform schedule covers.
pub fn multi_schedule_platforms(
    requested: Vec<PlatformArg>,
    source_status: &str,
    selected: &Vec<String>,
) -> (r: Result<Vec<PlatformArg>, String>)
    ensures
        spec_multi_schedule_platforms(r, requested@, source_status@, spec_string_views(selected@)),
{
    if !(str_eq(source_status, "ready") || str_eq(source_status, "blocked") || str_eq(
        source_status,
        "canceled",
    ) || str_eq(source_status, "disabled")) {
        return Err("Only decision-queue jobs can be multi-scheduled.".to_owned());
    }
    let ps = if requested.len() == 0 {
        parsed_platforms(selected)
    } else {
        requested
    };
    if ps.len() == 0 {
        return Err("Select at least one platform before scheduling.".to_owned());
    }
    Ok(ps)
}

/// The operator a stored decision was made by: `ai` when it says so, else the user.
pub fn operator_from_stored(operator: &Option<String>) -> (o: crate::jobs::OperatorArg)
    ensures
        o == if opt_seq(*operator) == Some("ai"@) {
            crate::jobs::OperatorArg::Ai
        } else {
            crate::jobs::OperatorArg::User
        },
{
    match operator {
        Some(s) => if str_eq(s.as_str(), "ai") {
            crate::jobs::OperatorArg::Ai
        } else {
            crate::jobs::OperatorArg::User
        },
        None => crate::jobs::OperatorArg::User,
    }
}

/// The content group a multi-platform schedule keeps: the decision's, unless
/// blank; else the new one.
pub fn common_content_group(existing: &str, generated: &str) -> (g: String)
    ensures
        g@ == if spec_trim(existing@).len() == 0 {
            generated@
        } else {
            existing@
        },
{
    let t = trim(existing);
    if t.as_str().unicode_len() == 0 {
        generated.to_owned()
    } else {
        existing.to_owned()
    }
}

/// Whether a per-platform result of a multi-platform schedule succeeded.
pub open spec fn spec_result_ok(item: Json) -> bool {
    spec_as_bool(spec_get_opt(spec_get_opt(Some(item), "result"@), "ok"@)) == Some(true)
}

/// Why a per-platform result failed: its `message`, else its `reason`, else
/// its error's `message`, else `unknown error`.
pub open spec fn spec_result_reason(item: Json) -> Seq<char> {
    let result = spec_get_opt(Some(item), "result"@);
    match spec_as_str(spec_get_opt(result, "message"@)) {
        Some(m) => m,
        None => match spec_as_str(spec_get_opt(result, "reason"@)) {
            Some(m) => m,
            None => match spec_as_str(spec_get_opt(spec_get_opt(result, "error"@), "message"@)) {
                Some(m) => m,
                None => "unknown error"@,
            },
        },
    }
}

/// `platform: reason` for each failed result, in order.
pub open spec fn spec_failure_lines(items: Seq<Json>) -> Seq<Seq<char>>
    decreases items.len(),
{
    if items.len() == 0 {
        seq![]
    } else {
        let prev = spec_failure_lines(items.drop_last());
        let item = items.last();
        if spec_result_ok(item) {
            prev
        } else {
            prev.push(
                match spec_as_str(spec_get_opt(Some(item), "platform"@)) {
                    Some(p) => p,
                    None => "unknown"@,
                } + ": "@ + spec_result_reason(item),
            )
        }
    }
}

/// The message of a multi-platform schedule that failed its preflight.
pub open spec fn spec_multi_schedule_failure_message(items: Seq<Json>) -> Seq<char> {
    let failed = spec_failure_lines(items);
    if failed.len() == 0 {
        "One or more selected platforms failed to schedule."@
    } else {
        "One or more selected platforms failed to schedule ("@ + spec_join(failed, "; "@) + ")"@
    }
}

fn opt_str_member(v: Option<&JsonValue>, key: &str) -> (r: Option<String>)
    ensures
        opt_seq(r) == spec_as_str(
            spec_get_opt(
                match v {
                    Some(x) => Some(x@),
                    None => None,
                },
                key@,
            ),
        ),
{
    match v {
        Some(x) => match x.get(key) {
            Some(m) => match m.as_str() {
                Some(s) => Some(s.to_owned()),
                None => None,
            },
            None => None,
        },
        None => None,
    }
}

/// The message of a multi-platform schedule that failed its preflight, from
/// the per-platform results.
pub fn build_multi_schedule_failure_message(results: &Vec<JsonValue>) -> (m: String)
    ensures
        m@ == spec_multi_schedule_failure_message(crate::json::json_items(*results)),
{
    let ghost items = crate::json::json_items(*results);
    let mut failed: Vec<String> = Vec::new();
    let mut i: usize = 0;
    while i < results.len()
        invariant
            0 <= i <= results@.len(),
            items == crate::json::json_items(*results),
            items.len() == results@.len(),
            spec_string_views(failed@) == spec_failure_lines(items.subrange(0, i as int)),
        decreases results.len() - i,
    {
        let item = &results[i];
        proof {
            assert(items[i as int] == item@);
            assert(items.subrange(0, i + 1).drop_last() =~= items.subrange(0, i as int));
            assert(items.subrange(0, i + 1).last() == item@);
        }
        let result = item.get("result");
        let ok = match result {
            Some(r) => match r.get("ok") {
                Some(o) => match o.as_bool() {
                    Some(b) => b,
                    None => false,
                },
                None => false,
            },
            None => false,
        };
        if !ok {
            let platform = match opt_str_member(Some(item), "platform") {
                Some(p) => p,
                None => "unknown".to_owned(),
            };
            let reason = match opt_str_member(result, "message") {
                Some(m) => m,
                None => match opt_str_member(result, "reason") {
                    Some(m) => m,
                    None => {
                        let error = match result {
                            Some(r) => r.get("error"),
                            None => None,
                        };
                        match opt_str_member(error, "message") {
                            Some(m) => m,
                            None => "unknown error".to_owned(),
                        }
                    },
                },
            };
            let line = concat3(platform.as_str(), ": ", reason.as_str());
            let ghost before = failed@;
            failed.push(line);
            proof {
                lemma_string_views_push(before, line);
            }
        }
        i = i + 1;
    }
    proof {
        assert(items.subrange(0, items.len() as int) =~= items);
    }
    if failed.len() == 0 {
        return "One or more selected platforms failed to schedule.".to_owned();
    }
    let joined = join_lines(&failed, "; ");
    concat3("One or more selected platforms failed to schedule (", joined.as_str(), ")")
}

} // verus!
