//! Publish jobs: platforms and operators, the job statuses and every move
//! between them (ready, scheduled, claimed by the worker, finished, blocked,
//! canceled), and the workspace identity a job database carries.
use vstd::prelude::*;

use crate::chars::str_eq;
use crate::commands::{spec_publish_pass_result, validate_publish_pass};
use crate::config::RuntimeConfig;
use crate::errors::{is_validation, opt_seq, opt_str, validation, AppError};
use crate::text::{concat2, concat3, concat5, decimal, spec_decimal};

verus! {

/// A platform a post is published to.
#[derive(Clone, Copy, PartialEq, Eq, Structural, Debug)]
pub enum PlatformArg {
    Linkedin,
    X,
}

/// The name of a platform.
pub open spec fn spec_platform_name(p: PlatformArg) -> Seq<char> {
    match p {
        PlatformArg::Linkedin => "linkedin"@,
        PlatformArg::X => "x"@,
    }
}

/// The platform a name stands for.
pub open spec fn spec_parse_platform(s: Seq<char>) -> Option<PlatformArg> {
    if s == "linkedin"@ {
        Some(PlatformArg::Linkedin)
    } else if s == "x"@ {
        Some(PlatformArg::X)
    } else {
        None
    }
}

impl PlatformArg {
    /// The name of this platform.
    pub fn as_str(self) -> (s: &'static str)
        ensures
            s@ == spec_platform_name(self),
    {
        match self {
            PlatformArg::Linkedin => "linkedin",
            PlatformArg::X => "x",
        }
    }
}

/// The platform a name stands for.
pub fn parse_platform_arg(s: &str) -> (p: Option<PlatformArg>)
    ensures
        p == spec_parse_platform(s@),
{
    if str_eq(s, "linkedin") {
        Some(PlatformArg::Linkedin)
    } else if str_eq(s, "x") {
        Some(PlatformArg::X)
    } else {
        None
    }
}

/// Every platform is read back from its name, and only names of platforms are read.
pub proof fn lemma_platform_name_roundtrip(p: PlatformArg, s: Seq<char>)
    ensures
        spec_parse_platform(spec_platform_name(p)) == Some(p),
        spec_parse_platform(s) matches Some(q) ==> spec_platform_name(q) == s,
{
    reveal_strlit("linkedin");
    reveal_strlit("x");
    assert("x"@.len() == 1);
    assert("linkedin"@.len() == 8);
    assert("x"@ != "linkedin"@);
}

/// Who made a scheduling decision.
#[derive(Clone, Copy, PartialEq, Eq, Structural, Debug)]
pub enum OperatorArg {
    User,
    Ai,
}

/// The name of an operator.
pub open spec fn spec_operator_name(o: OperatorArg) -> Seq<char> {
    match o {
        OperatorArg::User => "user"@,
        OperatorArg::Ai => "ai"@,
    }
}

impl OperatorArg {
    /// The name of this operator.
    pub fn as_str(self) -> (s: &'static str)
        ensures
            s@ == spec_operator_name(self),
    {
        match self {
            OperatorArg::User => "user",
            OperatorArg::Ai => "ai",
        }
    }
}

/// The publish mode a platform's jobs carry: `single` for X, none for LinkedIn.
pub open spec fn spec_publish_mode(p: PlatformArg) -> Option<Seq<char>> {
    match p {
        PlatformArg::X => Some("single"@),
        PlatformArg::Linkedin => None,
    }
}

/// The publish mode a platform's jobs carry.
pub fn publish_mode_for_platform(platform: PlatformArg) -> (m: Option<&'static str>)
    ensures
        crate::errors::opt_str(m) == spec_publish_mode(platform),
{
    match platform {
        PlatformArg::X => Some("single"),
        PlatformArg::Linkedin => None,
    }
}

/// AI notes belong to decisions made by AI.
pub fn validate_operator_notes(
    operator: OperatorArg,
    ai_note: &Option<String>,
    ai_model: &Option<String>,
) -> (r: Result<(), AppError>)
    ensures
        r is Ok <==> !(operator == OperatorArg::User && (ai_note is Some || ai_model is Some)),
        r matches Err(e) ==> is_validation(
            e,
            "--ai-note/--ai-model require --by ai."@,
            Some("Use --by ai when providing AI metadata."@),
            None,
        ),
{
    match operator {
        OperatorArg::User => {
            if ai_note.is_some() || ai_model.is_some() {
                return Err(
                    validation(
                        "--ai-note/--ai-model require --by ai.".to_owned(),
                        Some("Use --by ai when providing AI metadata."),
                        None,
                    ),
                );
            }
            Ok(())
        },
        OperatorArg::Ai => Ok(()),
    }
}

/// The platforms in the order first given, each once.
pub open spec fn spec_dedup_platforms(ps: Seq<PlatformArg>) -> Seq<PlatformArg>
    decreases ps.len(),
{
    if ps.len() == 0 {
        seq![]
    } else {
        let prev = spec_dedup_platforms(ps.drop_last());
        if prev.contains(ps.last()) {
            prev
        } else {
            prev.push(ps.last())
        }
    }
}

/// The platforms in the order first given, each once.
pub fn dedup_platforms(ps: &Vec<PlatformArg>) -> (out: Vec<PlatformArg>)
    ensures
        out@ == spec_dedup_platforms(ps@),
{
    let mut out: Vec<PlatformArg> = Vec::new();
    let mut i: usize = 0;
    while i < ps.len()
        invariant
            0 <= i <= ps@.len(),
            out@ == spec_dedup_platforms(ps@.subrange(0, i as int)),
        decreases ps.len() - i,
    {
        let p = ps[i];
        let mut seen = false;
        let mut k: usize = 0;
        while k < out.len()
            invariant
                0 <= k <= out@.len(),
                seen <==> exists|j: int| 0 <= j < k && out@[j] == p,
            decreases out.len() - k,
        {
            if out[k] == p {
                seen = true;
            }
            k = k + 1;
        }
        proof {
            assert(ps@.subrange(0, i + 1).drop_last() =~= ps@.subrange(0, i as int));
            assert(ps@.subrange(0, i + 1).last() == p);
            if seen {
                let j = choose|j: int| 0 <= j < k && out@[j] == p;
                assert(out@.contains(p));
            } else {
                assert(!out@.contains(p)) by {
                    if out@.contains(p) {
                        let j = choose|j: int| 0 <= j < out@.len() && out@[j] == p;
                        assert(out@[j] == p);
                    }
                }
            }
        }
        if !seen {
            out.push(p);
        }
        i = i + 1;
    }
    proof {
        assert(ps@.subrange(0, ps@.len() as int) =~= ps@);
    }
    out
}

/// The status of a job.
#[derive(Clone, Copy, PartialEq, Eq, Structural, Debug)]
pub enum JobStatus {
    Ready,
    Scheduled,
    Publishing,
    Published,
    Failed,
    Blocked,
    Canceled,
    Disabled,
}

/// The stored name of a status.
pub open spec fn spec_status_name(s: JobStatus) -> Seq<char> {
    match s {
        JobStatus::Ready => "ready"@,
        JobStatus::Scheduled => "scheduled"@,
        JobStatus::Publishing => "publishing"@,
        JobStatus::Published => "published"@,
        JobStatus::Failed => "failed"@,
        JobStatus::Blocked => "blocked"@,
        JobStatus::Canceled => "canceled"@,
        JobStatus::Disabled => "disabled"@,
    }
}

/// The status a stored name stands for.
pub open spec fn spec_parse_status(s: Seq<char>) -> Option<JobStatus> {
    if s == "ready"@ {
        Some(JobStatus::Ready)
    } else if s == "scheduled"@ {
        Some(JobStatus::Scheduled)
    } else if s == "publishing"@ {
        Some(JobStatus::Publishing)
    } else if s == "published"@ {
        Some(JobStatus::Published)
    } else if s == "failed"@ {
        Some(JobStatus::Failed)
    } else if s == "blocked"@ {
        Some(JobStatus::Blocked)
    } else if s == "canceled"@ {
        Some(JobStatus::Canceled)
    } else if s == "disabled"@ {
        Some(JobStatus::Disabled)
    } else {
        None
    }
}

impl JobStatus {
    /// The stored name of this status.
    pub fn as_str(self) -> (s: &'static str)
        ensures
            s@ == spec_status_name(self),
    {
        match self {
            JobStatus::Ready => "ready",
            JobStatus::Scheduled => "scheduled",
            JobStatus::Publishing => "publishing",
            JobStatus::Published => "published",
            JobStatus::Failed => "failed",
            JobStatus::Blocked => "blocked",
            JobStatus::Canceled => "canceled",
            JobStatus::Disabled => "disabled",
        }
    }
}

/// The status a stored name stands for.
pub fn parse_job_status(s: &str) -> (r: Option<JobStatus>)
    ensures
        r == spec_parse_status(s@),
{
    if str_eq(s, "ready") {
        Some(JobStatus::Ready)
    } else if str_eq(s, "scheduled") {
        Some(JobStatus::Scheduled)
    } else if str_eq(s, "publishing") {
        Some(JobStatus::Publishing)
    } else if str_eq(s, "published") {
        Some(JobStatus::Published)
    } else if str_eq(s, "failed") {
        Some(JobStatus::Failed)
    } else if str_eq(s, "blocked") {
        Some(JobStatus::Blocked)
    } else if str_eq(s, "canceled") {
        Some(JobStatus::Canceled)
    } else if str_eq(s, "disabled") {
        Some(JobStatus::Disabled)
    } else {
        None
    }
}

/// The `--status` filter of `job list`, when given, must name a status.
pub fn validate_status_filter(status: Option<&str>) -> (r: Result<(), AppError>)
    ensures
        match status {
            None => r is Ok,
            Some(s) => if spec_parse_status(s@) is Some {
                r is Ok
            } else {
                r matches Err(e) && is_validation(
                    e,
                    "Invalid --status value: "@ + s@,
                    Some(
                        "Use one of: ready, scheduled, publishing, published, failed, blocked, canceled, disabled."@,
                    ),
                    None,
                )
            },
        },
{
    match status {
        None => Ok(()),
        Some(s) => {
            if parse_job_status(s).is_some() {
                Ok(())
            } else {
                let message = concat2("Invalid --status value: ", s);
                Err(
                    validation(
                        message,
                        Some(
                            "Use one of: ready, scheduled, publishing, published, failed, blocked, canceled, disabled.",
                        ),
                        None,
                    ),
                )
            }
        },
    }
}

/// What the worker and the job commands read and write of a job.
#[derive(Debug)]
pub struct JobState {
    pub status: JobStatus,
    pub run_at_utc: Option<String>,
    pub deleted: bool,
    pub attempt_count: u32,
    pub claim_token: Option<String>,
    pub publishing_started_at: Option<String>,
    pub status_reason: Option<String>,
    pub last_error_type: Option<String>,
    pub last_error_message: Option<String>,
    pub last_http_status: Option<u16>,
}

/// The order of stored timestamps: the order of their text, character by
/// character (a shorter prefix first).
pub open spec fn spec_text_le(a: Seq<char>, b: Seq<char>) -> bool
    decreases a.len(),
{
    if a.len() == 0 {
        true
    } else if b.len() == 0 {
        false
    } else if a[0] != b[0] {
        a[0] < b[0]
    } else {
        spec_text_le(a.drop_first(), b.drop_first())
    }
}

/// The order of stored text is transitive.
pub proof fn lemma_text_le_transitive(a: Seq<char>, b: Seq<char>, c: Seq<char>)
    requires
        spec_text_le(a, b),
        spec_text_le(b, c),
    ensures
        spec_text_le(a, c),
    decreases a.len(),
{
    if a.len() > 0 && b.len() > 0 && c.len() > 0 && a[0] == b[0] && b[0] == c[0] {
        lemma_text_le_transitive(a.drop_first(), b.drop_first(), c.drop_first());
    }
}

/// Any two stored texts are ordered one way or the other.
pub proof fn lemma_text_le_total(a: Seq<char>, b: Seq<char>)
    ensures
        spec_text_le(a, b) || spec_text_le(b, a),
    decreases a.len(),
{
    if a.len() > 0 && b.len() > 0 && a[0] == b[0] {
        lemma_text_le_total(a.drop_first(), b.drop_first());
    }
}

/// Whether `a` sorts at or before `b` as stored text.
pub fn text_le(a: &str, b: &str) -> (r: bool)
    ensures
        r == spec_text_le(a@, b@),
{
    let x = crate::chars::chars_of(a);
    let y = crate::chars::chars_of(b);
    proof {
        assert(x@.subrange(0, x@.len() as int) =~= x@);
        assert(y@.subrange(0, y@.len() as int) =~= y@);
    }
    let mut i: usize = 0;
    while i < x.len() && i < y.len() && x[i] == y[i]
        invariant
            x@ == a@,
            y@ == b@,
            0 <= i <= x@.len(),
            i <= y@.len(),
            spec_text_le(a@, b@) == spec_text_le(x@.subrange(i as int, x@.len() as int), y@.subrange(
                i as int,
                y@.len() as int,
            )),
        decreases x.len() - i,
    {
        proof {
            let xs = x@.subrange(i as int, x@.len() as int);
            let ys = y@.subrange(i as int, y@.len() as int);
            assert(xs.drop_first() =~= x@.subrange(i + 1, x@.len() as int));
            assert(ys.drop_first() =~= y@.subrange(i + 1, y@.len() as int));
        }
        i = i + 1;
    }
    if i == x.len() {
        true
    } else if i == y.len() {
        false
    } else {
        x[i] < y[i]
    }
}

/// A job the worker may claim at `now`: scheduled, due, not deleted.
pub open spec fn spec_claimable(job: JobState, now: Seq<char>) -> bool {
    job.status == JobStatus::Scheduled && !job.deleted && match job.run_at_utc {
        Some(r) => spec_text_le(r@, now),
        None => false,
    }
}

/// The job once the worker claimed it: publishing, under the claim token,
/// one more attempt.
pub open spec fn spec_claimed(job: JobState, claimed: JobState, token: Seq<char>, now: Seq<char>) -> bool {
    &&& claimed.status == JobStatus::Publishing
    &&& claimed.attempt_count == job.attempt_count + 1
    &&& opt_seq(claimed.claim_token) == Some(token)
    &&& opt_seq(claimed.publishing_started_at) == Some(now)
    &&& opt_seq(claimed.run_at_utc) == opt_seq(job.run_at_utc)
    &&& claimed.deleted == job.deleted
    &&& opt_seq(claimed.status_reason) == opt_seq(job.status_reason)
    &&& opt_seq(claimed.last_error_type) == opt_seq(job.last_error_type)
    &&& opt_seq(claimed.last_error_message) == opt_seq(job.last_error_message)
    &&& claimed.last_http_status == job.last_http_status
}

fn copy_opt(o: &Option<String>) -> (r: Option<String>)
    ensures
        opt_seq(r) == opt_seq(*o),
{
    crate::errors::copy_opt(o)
}

/// The worker's claim of a due job: the claimed job, or `None` when the job
/// is not claimable (another worker has it, it is not due, or it is no longer
/// scheduled).
pub fn claim_due_job(job: &JobState, claim_token: &str, now: &str) -> (r: Option<JobState>)
    requires
        job.attempt_count < u32::MAX,
    ensures
        r is Some <==> spec_claimable(*job, now@),
        r matches Some(c) ==> spec_claimed(*job, c, claim_token@, now@),
{
    if job.status != JobStatus::Scheduled || job.deleted {
        return None;
    }
    let due = match &job.run_at_utc {
        Some(r) => text_le(r.as_str(), now),
        None => false,
    };
    if !due {
        return None;
    }
    Some(
        JobState {
            status: JobStatus::Publishing,
            run_at_utc: copy_opt(&job.run_at_utc),
            deleted: job.deleted,
            attempt_count: job.attempt_count + 1,
            claim_token: Some(claim_token.to_owned()),
            publishing_started_at: Some(now.to_owned()),
            status_reason: copy_opt(&job.status_reason),
            last_error_type: copy_opt(&job.last_error_type),
            last_error_message: copy_opt(&job.last_error_message),
            last_http_status: job.last_http_status,
        },
    )
}

/// The job is held by the worker under this claim token.
pub open spec fn spec_holds_claim(job: JobState, token: Seq<char>) -> bool {
    job.status == JobStatus::Publishing && opt_seq(job.claim_token) == Some(token)
}

/// The job after a finish under `token`: `finished` when the claim holds,
/// else unchanged; the claim is released either way it applies.
pub open spec fn spec_finished(
    job: JobState,
    out: JobState,
    token: Seq<char>,
    status: JobStatus,
    reason: Option<Seq<char>>,
    error_type: Option<Seq<char>>,
    error_message: Option<Seq<char>>,
    http_status: Option<u16>,
) -> bool {
    if spec_holds_claim(job, token) {
        &&& out.status == status
        &&& opt_seq(out.status_reason) == reason
        &&& opt_seq(out.last_error_type) == error_type
        &&& opt_seq(out.last_error_message) == error_message
        &&& out.last_http_status == http_status
        &&& out.claim_token is None
        &&& out.publishing_started_at is None
        &&& out.attempt_count == job.attempt_count
        &&& opt_seq(out.run_at_utc) == opt_seq(job.run_at_utc)
        &&& out.deleted == job.deleted
    } else {
        spec_same_job(job, out)
    }
}

/// Two job states that hold the same values.
pub open spec fn spec_same_job(a: JobState, b: JobState) -> bool {
    &&& a.status == b.status
    &&& opt_seq(a.run_at_utc) == opt_seq(b.run_at_utc)
    &&& a.deleted == b.deleted
    &&& a.attempt_count == b.attempt_count
    &&& opt_seq(a.claim_token) == opt_seq(b.claim_token)
    &&& opt_seq(a.publishing_started_at) == opt_seq(b.publishing_started_at)
    &&& opt_seq(a.status_reason) == opt_seq(b.status_reason)
    &&& opt_seq(a.last_error_type) == opt_seq(b.last_error_type)
    &&& opt_seq(a.last_error_message) == opt_seq(b.last_error_message)
    &&& a.last_http_status == b.last_http_status
}

/// A copy of a job state.
pub fn copy_job(job: &JobState) -> (c: JobState)
    ensures
        spec_same_job(*job, c),
{
    JobState {
        status: job.status,
        run_at_utc: copy_opt(&job.run_at_utc),
        deleted: job.deleted,
        attempt_count: job.attempt_count,
        claim_token: copy_opt(&job.claim_token),
        publishing_started_at: copy_opt(&job.publishing_started_at),
        status_reason: copy_opt(&job.status_reason),
        last_error_type: copy_opt(&job.last_error_type),
        last_error_message: copy_opt(&job.last_error_message),
        last_http_status: job.last_http_status,
    }
}

fn holds_claim(job: &JobState, token: &str) -> (b: bool)
    ensures
        b == spec_holds_claim(*job, token@),
{
    job.status == JobStatus::Publishing && match &job.claim_token {
        Some(t) => str_eq(t.as_str(), token),
        None => false,
    }
}

/// The job after the worker published it under `claim_token`.
pub fn finish_worker_job_success(job: &JobState, claim_token: &str) -> (out: JobState)
    ensures
        spec_finished(*job, out, claim_token@, JobStatus::Published, None, None, None, None),
{
    if !holds_claim(job, claim_token) {
        return copy_job(job);
    }
    JobState {
        status: JobStatus::Published,
        run_at_utc: copy_opt(&job.run_at_utc),
        deleted: job.deleted,
        attempt_count: job.attempt_count,
        claim_token: None,
        publishing_started_at: None,
        status_reason: None,
        last_error_type: None,
        last_error_message: None,
        last_http_status: None,
    }
}

/// How a claimed job ended without a post: blocked before publishing, or
/// failed while publishing.
#[derive(Clone, Copy, PartialEq, Eq, Structural, Debug)]
pub enum WorkerFailure {
    Blocked,
    Failed,
}

/// The status a worker failure leaves a job in.
pub open spec fn spec_failure_status(f: WorkerFailure) -> JobStatus {
    match f {
        WorkerFailure::Blocked => JobStatus::Blocked,
        WorkerFailure::Failed => JobStatus::Failed,
    }
}

/// The job after the worker's attempt under `claim_token` ended in `error`
/// (its report's type, message and HTTP status).
pub fn finish_worker_job_error(
    job: &JobState,
    claim_token: &str,
    failure: WorkerFailure,
    error_type: &str,
    error_message: &str,
    http_status: Option<u16>,
) -> (out: JobState)
    ensures
        spec_finished(
            *job,
            out,
            claim_token@,
            spec_failure_status(failure),
            Some(error_message@),
            Some(error_type@),
            Some(error_message@),
            http_status,
        ),
{
    if !holds_claim(job, claim_token) {
        return copy_job(job);
    }
    JobState {
        status: match failure {
            WorkerFailure::Blocked => JobStatus::Blocked,
            WorkerFailure::Failed => JobStatus::Failed,
        },
        run_at_utc: copy_opt(&job.run_at_utc),
        deleted: job.deleted,
        attempt_count: job.attempt_count,
        claim_token: None,
        publishing_started_at: None,
        status_reason: Some(error_message.to_owned()),
        last_error_type: Some(error_type.to_owned()),
        last_error_message: Some(error_message.to_owned()),
        last_http_status: http_status,
    }
}

/// The reason an expired claim is reported and blocked with.
pub open spec fn spec_interrupted_reason() -> Seq<char> {
    "Publishing outcome unknown: worker claim expired before completion. Verify the platform before rescheduling."@
}

/// A claim that expired: publishing since at or before `expires_before`.
pub open spec fn spec_claim_expired(job: JobState, expires_before: Seq<char>) -> bool {
    job.status == JobStatus::Publishing && match job.publishing_started_at {
        Some(s) => spec_text_le(s@, expires_before),
        None => false,
    }
}

/// Whether the worker's claim on a job expired.
pub fn claim_expired(job: &JobState, expires_before: &str) -> (b: bool)
    ensures
        b == spec_claim_expired(*job, expires_before@),
{
    job.status == JobStatus::Publishing && match &job.publishing_started_at {
        Some(s) => text_le(s.as_str(), expires_before),
        None => false,
    }
}

/// The job after reconciling an expired claim: a job whose claim expired
/// and carries a token is blocked as interrupted, its outcome unknown; any
/// other job is left as it is. The job is never published again by itself.
pub fn reconcile_expired_claim(job: &JobState, expires_before: &str) -> (out: JobState)
    ensures
        spec_claim_expired(*job, expires_before@) && job.claim_token is Some ==> spec_finished(
            *job,
            out,
            opt_seq(job.claim_token)->Some_0,
            JobStatus::Blocked,
            Some(spec_interrupted_reason()),
            Some("worker_interrupted"@),
            Some(spec_interrupted_reason()),
            None,
        ),
        !(spec_claim_expired(*job, expires_before@) && job.claim_token is Some) ==> spec_same_job(
            *job,
            out,
        ),
{
    if !claim_expired(job, expires_before) {
        return copy_job(job);
    }
    match &job.claim_token {
        None => copy_job(job),
        Some(token) => {
            let reason = "Publishing outcome unknown: worker claim expired before completion. Verify the platform before rescheduling.";
            finish_worker_job_error(job, token.as_str(), WorkerFailure::Blocked, "worker_interrupted", reason, None)
        },
    }
}

/// Every text sorts at or before itself.
proof fn lemma_text_le_reflexive(a: Seq<char>)
    ensures
        spec_text_le(a, a),
    decreases a.len(),
{
    if a.len() > 0 {
        lemma_text_le_reflexive(a.drop_first());
    }
}

/// Texts equal in both orders are the same text.
proof fn lemma_text_le_antisymmetric(a: Seq<char>, b: Seq<char>)
    requires
        spec_text_le(a, b),
        spec_text_le(b, a),
    ensures
        a == b,
    decreases a.len(),
{
    if a.len() > 0 && b.len() > 0 {
        lemma_text_le_antisymmetric(a.drop_first(), b.drop_first());
        assert(a =~= seq![a[0]] + a.drop_first());
        assert(b =~= seq![b[0]] + b.drop_first());
    }
}

/// The run time a job is ordered by (empty when it has none).
pub open spec fn spec_run_at(job: JobState) -> Seq<char> {
    match job.run_at_utc {
        Some(r) => r@,
        None => Seq::empty(),
    }
}

/// The worker's order of due jobs: `a` comes strictly before `b` when it is
/// due earlier, or due at the same time and created earlier.
pub open spec fn spec_due_before(
    run_a: Seq<char>,
    created_a: Seq<char>,
    run_b: Seq<char>,
    created_b: Seq<char>,
) -> bool {
    !spec_text_le(run_b, run_a) || (run_a == run_b && !spec_text_le(created_b, created_a))
}

/// Job `k` of `jobs` comes strictly before job `m`.
pub open spec fn spec_job_before(jobs: Seq<JobState>, created: Seq<String>, k: int, m: int) -> bool {
    spec_due_before(spec_run_at(jobs[k]), created[k]@, spec_run_at(jobs[m]), created[m]@)
}

/// Job `i` is the oldest due job at `now`: claimable, no claimable job comes
/// before it, and it is the first of the jobs due with it.
pub open spec fn spec_oldest_due(jobs: Seq<JobState>, created: Seq<String>, now: Seq<char>, i: int) -> bool {
    &&& 0 <= i < jobs.len()
    &&& spec_claimable(jobs[i], now)
    &&& forall|j: int| 0 <= j < jobs.len() && spec_claimable(#[trigger] jobs[j], now) ==> !spec_job_before(jobs, created, j, i)
    &&& forall|j: int| 0 <= j < i && spec_claimable(#[trigger] jobs[j], now) ==> spec_job_before(jobs, created, i, j)
}

/// The order of due jobs is a strict total order.
proof fn lemma_due_order(ra: Seq<char>, ca: Seq<char>, rb: Seq<char>, cb: Seq<char>, rc: Seq<char>, cc: Seq<char>)
    ensures
        !spec_due_before(ra, ca, ra, ca),
        spec_due_before(ra, ca, rb, cb) ==> !spec_due_before(rb, cb, ra, ca),
        spec_due_before(ra, ca, rb, cb) && !spec_due_before(rc, cc, rb, cb) ==> spec_due_before(ra, ca, rc, cc),
        !spec_due_before(rb, cb, ra, ca) && spec_due_before(rb, cb, rc, cc) ==> spec_due_before(ra, ca, rc, cc),
{
    lemma_text_le_reflexive(ra);
    lemma_text_le_reflexive(ca);
    lemma_text_le_total(ra, rb);
    lemma_text_le_total(rb, rc);
    lemma_text_le_total(ra, rc);
    lemma_text_le_total(ca, cb);
    lemma_text_le_total(cb, cc);
    lemma_text_le_total(ca, cc);
    if spec_text_le(ra, rb) && spec_text_le(rb, ra) {
        lemma_text_le_antisymmetric(ra, rb);
    }
    if spec_text_le(rb, rc) && spec_text_le(rc, rb) {
        lemma_text_le_antisymmetric(rb, rc);
    }
    if spec_text_le(ra, rc) && spec_text_le(rc, ra) {
        lemma_text_le_antisymmetric(ra, rc);
    }
    if spec_text_le(ca, cb) && spec_text_le(cb, ca) {
        lemma_text_le_antisymmetric(ca, cb);
    }
    if spec_text_le(cb, cc) && spec_text_le(cc, cb) {
        lemma_text_le_antisymmetric(cb, cc);
    }
    if spec_text_le(ca, cc) && spec_text_le(cc, ca) {
        lemma_text_le_antisymmetric(ca, cc);
    }
    if spec_text_le(ra, rb) && spec_text_le(rb, rc) {
        lemma_text_le_transitive(ra, rb, rc);
    }
    if spec_text_le(rc, rb) && spec_text_le(rb, ra) {
        lemma_text_le_transitive(rc, rb, ra);
    }
    if spec_text_le(ca, cb) && spec_text_le(cb, cc) {
        lemma_text_le_transitive(ca, cb, cc);
    }
    if spec_text_le(cc, cb) && spec_text_le(cb, ca) {
        lemma_text_le_transitive(cc, cb, ca);
    }
    if spec_text_le(rb, ra) && spec_text_le(rc, rb) {
        lemma_text_le_transitive(rc, rb, ra);
    }
    if spec_text_le(rb, rc) && spec_text_le(ra, rb) {
        lemma_text_le_transitive(ra, rb, rc);
    }
}

fn run_at_text(job: &JobState) -> (s: &str)
    ensures
        s@ == spec_run_at(*job),
{
    match &job.run_at_utc {
        Some(r) => r.as_str(),
        None => {
            proof {
                reveal_strlit("");
            }
            ""
        },
    }
}

fn due_before(run_a: &str, created_a: &str, run_b: &str, created_b: &str) -> (b: bool)
    ensures
        b == spec_due_before(run_a@, created_a@, run_b@, created_b@),
{
    !text_le(run_b, run_a) || (str_eq(run_a, run_b) && !text_le(created_b, created_a))
}

/// The job a live worker run claims: the oldest job due at `now` (earliest
/// run time, then earliest creation), or `None` when no job is due.
/// `created_at[k]` is when `jobs[k]` was created.
pub fn oldest_due_job(jobs: &Vec<JobState>, created_at: &Vec<String>, now: &str) -> (r: Option<usize>)
    requires
        jobs@.len() == created_at@.len(),
    ensures
        match r {
            Some(i) => spec_oldest_due(jobs@, created_at@, now@, i as int),
            None => forall|j: int| 0 <= j < jobs@.len() ==> !spec_claimable(#[trigger] jobs@[j], now@),
        },
{
    let mut best: Option<usize> = None;
    let mut i: usize = 0;
    while i < jobs.len()
        invariant
            jobs@.len() == created_at@.len(),
            0 <= i <= jobs@.len(),
            match best {
                None => forall|j: int| 0 <= j < i ==> !spec_claimable(#[trigger] jobs@[j], now@),
                Some(b) => {
                    &&& b < i
                    &&& spec_claimable(jobs@[b as int], now@)
                    &&& forall|j: int| 0 <= j < i && spec_claimable(#[trigger] jobs@[j], now@) ==> !spec_job_before(jobs@, created_at@, j, b as int)
                    &&& forall|j: int| 0 <= j < b && spec_claimable(#[trigger] jobs@[j], now@) ==> spec_job_before(jobs@, created_at@, b as int, j)
                },
            },
        decreases jobs.len() - i,
    {
        let claimable = claim_due_job_test(&jobs[i], now);
        proof {
            lemma_due_order(
                spec_run_at(jobs@[i as int]), created_at@[i as int]@,
                spec_run_at(jobs@[i as int]), created_at@[i as int]@,
                spec_run_at(jobs@[i as int]), created_at@[i as int]@,
            );
        }
        if claimable {
            match best {
                None => {
                    best = Some(i);
                },
                Some(b) => {
                    let earlier = due_before(
                        run_at_text(&jobs[i]),
                        created_at[i].as_str(),
                        run_at_text(&jobs[b]),
                        created_at[b].as_str(),
                    );
                    proof {
                        assert forall|j: int| 0 <= j < i && spec_claimable(#[trigger] jobs@[j], now@) implies (
                            if earlier {
                                !spec_job_before(jobs@, created_at@, j, i as int) && spec_job_before(jobs@, created_at@, i as int, j)
                            } else {
                                true
                            }) by {
                            let ji = jobs@[j];
                            let jb = jobs@[b as int];
                            let jn = jobs@[i as int];
                            lemma_due_order(
                                spec_run_at(jn), created_at@[i as int]@,
                                spec_run_at(jb), created_at@[b as int]@,
                                spec_run_at(ji), created_at@[j]@,
                            );
                            lemma_due_order(
                                spec_run_at(ji), created_at@[j]@,
                                spec_run_at(jn), created_at@[i as int]@,
                                spec_run_at(jb), created_at@[b as int]@,
                            );
                        }
                        lemma_due_order(
                            spec_run_at(jobs@[i as int]), created_at@[i as int]@,
                            spec_run_at(jobs@[b as int]), created_at@[b as int]@,
                            spec_run_at(jobs@[b as int]), created_at@[b as int]@,
                        );
                    }
                    if earlier {
                        best = Some(i);
                    }
                },
            }
        }
        i = i + 1;
    }
    best
}

/// Whether the worker may claim `job` at `now`.
fn claim_due_job_test(job: &JobState, now: &str) -> (b: bool)
    ensures
        b == spec_claimable(*job, now@),
{
    if job.status != JobStatus::Scheduled || job.deleted {
        return false;
    }
    match &job.run_at_utc {
        Some(r) => text_le(r.as_str(), now),
        None => false,
    }
}

/// How the work on a claimed job ended: its preflight failed, the provider
/// refused or failed the post (with the error's report type, message and
/// HTTP status), or the post was published.
#[derive(Debug)]
pub enum WorkerOutcome {
    PreflightFailed { error_type: String, message: String, http_status: Option<u16> },
    PublishFailed { error_type: String, message: String, http_status: Option<u16> },
    Published,
}

/// The publish attempt a claim opened, as the worker closes it.
#[derive(Debug)]
pub struct WorkerAttempt {
    pub attempt_no: u32,
    pub success: bool,
    pub error_type: Option<String>,
    pub error_message: Option<String>,
    pub http_status: Option<u16>,
}

/// The job and its attempt after the worker's work on a claim.
#[derive(Debug)]
pub struct ClaimedJobResult {
    pub job: JobState,
    pub attempt: WorkerAttempt,
}

/// What a claimed job becomes from how its work ended: a failed preflight
/// blocks it, a failed publish fails it, a post publishes it; the attempt the
/// claim opened (number `attempt_count`) is closed with the same outcome.
pub open spec fn spec_executed(claimed: JobState, token: Seq<char>, outcome: WorkerOutcome, r: ClaimedJobResult) -> bool {
    &&& r.attempt.attempt_no == claimed.attempt_count
    &&& match outcome {
        WorkerOutcome::PreflightFailed { error_type, message, http_status } => {
            &&& spec_finished(claimed, r.job, token, JobStatus::Blocked, Some(message@), Some(error_type@), Some(message@), http_status)
            &&& !r.attempt.success
            &&& opt_seq(r.attempt.error_type) == Some(error_type@)
            &&& opt_seq(r.attempt.error_message) == Some(message@)
            &&& r.attempt.http_status == http_status
        },
        WorkerOutcome::PublishFailed { error_type, message, http_status } => {
            &&& spec_finished(claimed, r.job, token, JobStatus::Failed, Some(message@), Some(error_type@), Some(message@), http_status)
            &&& !r.attempt.success
            &&& opt_seq(r.attempt.error_type) == Some(error_type@)
            &&& opt_seq(r.attempt.error_message) == Some(message@)
            &&& r.attempt.http_status == http_status
        },
        WorkerOutcome::Published => {
            &&& spec_finished(claimed, r.job, token, JobStatus::Published, None, None, None, None)
            &&& r.attempt.success
            &&& r.attempt.error_type is None
            &&& r.attempt.error_message is None
            &&& r.attempt.http_status is None
        },
    }
}

/// The worker's step after the work on a job it claimed under `claim_token`.
pub fn execute_claimed_job(claimed: &JobState, claim_token: &str, outcome: &WorkerOutcome) -> (r: ClaimedJobResult)
    ensures
        spec_executed(*claimed, claim_token@, *outcome, r),
{
    match outcome {
        WorkerOutcome::PreflightFailed { error_type, message, http_status } => ClaimedJobResult {
            job: finish_worker_job_error(
                claimed,
                claim_token,
                WorkerFailure::Blocked,
                error_type.as_str(),
                message.as_str(),
                *http_status,
            ),
            attempt: WorkerAttempt {
                attempt_no: claimed.attempt_count,
                success: false,
                error_type: Some(error_type.clone()),
                error_message: Some(message.clone()),
                http_status: *http_status,
            },
        },
        WorkerOutcome::PublishFailed { error_type, message, http_status } => ClaimedJobResult {
            job: finish_worker_job_error(
                claimed,
                claim_token,
                WorkerFailure::Failed,
                error_type.as_str(),
                message.as_str(),
                *http_status,
            ),
            attempt: WorkerAttempt {
                attempt_no: claimed.attempt_count,
                success: false,
                error_type: Some(error_type.clone()),
                error_message: Some(message.clone()),
                http_status: *http_status,
            },
        },
        WorkerOutcome::Published => ClaimedJobResult {
            job: finish_worker_job_success(claimed, claim_token),
            attempt: WorkerAttempt {
                attempt_no: claimed.attempt_count,
                success: true,
                error_type: None,
                error_message: None,
                http_status: None,
            },
        },
    }
}

/// A live run settles the job it claims: a due job, once claimed and worked
/// on, ends published, failed or blocked (as its outcome says), released by
/// the worker, with exactly one attempt more, recorded under that number;
/// and the worker never claims it again.
pub proof fn lemma_live_run_settles_claimed_job(
    job: JobState,
    claimed: JobState,
    token: Seq<char>,
    now: Seq<char>,
    outcome: WorkerOutcome,
    r: ClaimedJobResult,
    later: Seq<char>,
)
    requires
        spec_claimable(job, now),
        spec_claimed(job, claimed, token, now),
        spec_executed(claimed, token, outcome, r),
    ensures
        r.job.status == match outcome {
            WorkerOutcome::PreflightFailed { .. } => JobStatus::Blocked,
            WorkerOutcome::PublishFailed { .. } => JobStatus::Failed,
            WorkerOutcome::Published => JobStatus::Published,
        },
        r.job.attempt_count == job.attempt_count + 1,
        r.attempt.attempt_no == job.attempt_count + 1,
        r.attempt.success <==> outcome is Published,
        r.job.claim_token is None,
        !spec_claimable(r.job, later),
{
}

/// A claimed job is no longer claimable: an interrupted publish is never
/// picked up again by the worker.
pub proof fn lemma_claimed_job_not_reclaimed(job: JobState, claimed: JobState, token: Seq<char>, now: Seq<char>, later: Seq<char>)
    requires
        spec_claimed(job, claimed, token, now),
    ensures
        !spec_claimable(claimed, later),
{
}

/// Only a scheduled job is ever claimed.
pub proof fn lemma_only_scheduled_claimed(job: JobState, now: Seq<char>)
    requires
        spec_claimable(job, now),
    ensures
        job.status == JobStatus::Scheduled,
{
}

/// A published job stays published: no claim, finish or reconciliation moves it.
pub proof fn lemma_published_is_final(
    job: JobState,
    out: JobState,
    token: Seq<char>,
    status: JobStatus,
    reason: Option<Seq<char>>,
    error_type: Option<Seq<char>>,
    error_message: Option<Seq<char>>,
    http_status: Option<u16>,
    now: Seq<char>,
)
    requires
        job.status == JobStatus::Published,
        spec_finished(job, out, token, status, reason, error_type, error_message, http_status),
    ensures
        !spec_claimable(job, now),
        !spec_claim_expired(job, now),
        out.status == JobStatus::Published,
{
}

/// Jobs `job unready` may remove: ready, blocked, canceled or disabled.
pub open spec fn spec_removable(s: JobStatus) -> bool {
    s == JobStatus::Ready || s == JobStatus::Blocked || s == JobStatus::Canceled || s
        == JobStatus::Disabled
}

/// Whether `job unready` may remove a job in this status.
pub fn removable_status(s: JobStatus) -> (b: bool)
    ensures
        b == spec_removable(s),
{
    s == JobStatus::Ready || s == JobStatus::Blocked || s == JobStatus::Canceled || s
        == JobStatus::Disabled
}

/// Jobs `job cancel` may cancel: scheduled, blocked, failed or disabled.
pub open spec fn spec_cancelable(s: JobStatus) -> bool {
    s == JobStatus::Scheduled || s == JobStatus::Blocked || s == JobStatus::Failed || s
        == JobStatus::Disabled
}

/// A job moved by hand to `status` with `reason`, when it was in a status
/// the move is for; else the move is refused with `refusal`.
pub open spec fn spec_manual_move(
    r: Result<JobState, AppError>,
    job: JobState,
    allowed: bool,
    status: JobStatus,
    reason: Seq<char>,
    refusal: Seq<char>,
) -> bool {
    if allowed {
        r matches Ok(out) && out.status == status && opt_seq(out.status_reason) == Some(reason)
            && out.attempt_count == job.attempt_count && opt_seq(out.run_at_utc) == opt_seq(
            job.run_at_utc,
        ) && opt_seq(out.claim_token) == opt_seq(job.claim_token) && out.deleted == job.deleted
    } else {
        r matches Err(e) && is_validation(e, refusal, None, None)
    }
}

fn moved(job: &JobState, status: JobStatus, reason: String) -> (out: JobState)
    ensures
        out.status == status,
        out.status_reason == Some(reason),
        out.attempt_count == job.attempt_count,
        opt_seq(out.run_at_utc) == opt_seq(job.run_at_utc),
        opt_seq(out.claim_token) == opt_seq(job.claim_token),
        out.deleted == job.deleted,
{
    JobState {
        status,
        run_at_utc: copy_opt(&job.run_at_utc),
        deleted: job.deleted,
        attempt_count: job.attempt_count,
        claim_token: copy_opt(&job.claim_token),
        publishing_started_at: copy_opt(&job.publishing_started_at),
        status_reason: Some(reason),
        last_error_type: copy_opt(&job.last_error_type),
        last_error_message: copy_opt(&job.last_error_message),
        last_http_status: job.last_http_status,
    }
}

/// `job unschedule`: a scheduled job goes back to ready, with the given
/// reason or `unscheduled manually`.
pub fn unschedule_job(job: &JobState, reason: Option<String>) -> (r: Result<JobState, AppError>)
    ensures
        spec_manual_move(
            r,
            *job,
            job.status == JobStatus::Scheduled,
            JobStatus::Ready,
            match opt_seq(reason) {
                Some(t) => t,
                None => "unscheduled manually"@,
            },
            "Only scheduled jobs can be unscheduled."@,
        ),
{
    if job.status != JobStatus::Scheduled {
        return Err(validation("Only scheduled jobs can be unscheduled.".to_owned(), None, None));
    }
    let reason = match reason {
        Some(t) => t,
        None => "unscheduled manually".to_owned(),
    };
    Ok(moved(job, JobStatus::Ready, reason))
}

/// `job cancel`: a scheduled, blocked, failed or disabled job is canceled,
/// with the given reason or `canceled manually`.
pub fn cancel_job(job: &JobState, reason: Option<String>) -> (r: Result<JobState, AppError>)
    ensures
        spec_manual_move(
            r,
            *job,
            spec_cancelable(job.status),
            JobStatus::Canceled,
            match opt_seq(reason) {
                Some(t) => t,
                None => "canceled manually"@,
            },
            "No cancelable job found for this id."@,
        ),
{
    if !(job.status == JobStatus::Scheduled || job.status == JobStatus::Blocked || job.status
        == JobStatus::Failed || job.status == JobStatus::Disabled) {
        return Err(validation("No cancelable job found for this id.".to_owned(), None, None));
    }
    let reason = match reason {
        Some(t) => t,
        None => "canceled manually".to_owned(),
    };
    Ok(moved(job, JobStatus::Canceled, reason))
}

/// `job cancel` on the job stored under an id, if any: a missing job is
/// refused as no cancelable job, a stored one is canceled as `cancel_job` does.
pub fn cancel_stored_job(job: &Option<JobState>, reason: Option<String>) -> (r: Result<JobState, AppError>)
    ensures
        match *job {
            None => r matches Err(e) && is_validation(e, "No cancelable job found for this id."@, None, None),
            Some(j) => spec_manual_move(
                r,
                j,
                spec_cancelable(j.status),
                JobStatus::Canceled,
                match opt_seq(reason) {
                    Some(t) => t,
                    None => "canceled manually"@,
                },
                "No cancelable job found for this id."@,
            ),
        },
{
    match job {
        Some(j) => cancel_job(j, reason),
        None => Err(validation("No cancelable job found for this id.".to_owned(), None, None)),
    }
}

/// Which jobs a hand cancel takes: a scheduled, blocked, failed or disabled
/// job is canceled (with the given reason or `canceled manually`, its
/// attempts kept); a ready, publishing, published or canceled one is refused.
pub proof fn lemma_cancel_takes_waiting_and_stopped_jobs(
    job: JobState,
    reason: Option<String>,
    r: Result<JobState, AppError>,
)
    requires
        spec_manual_move(
            r,
            job,
            spec_cancelable(job.status),
            JobStatus::Canceled,
            match opt_seq(reason) {
                Some(t) => t,
                None => "canceled manually"@,
            },
            "No cancelable job found for this id."@,
        ),
    ensures
        (job.status == JobStatus::Scheduled || job.status == JobStatus::Blocked || job.status == JobStatus::Failed
            || job.status == JobStatus::Disabled) ==> (r matches Ok(out) && out.status == JobStatus::Canceled
            && out.attempt_count == job.attempt_count && (reason is None ==> opt_seq(out.status_reason) == Some(
            "canceled manually"@))),
        (job.status == JobStatus::Ready || job.status == JobStatus::Publishing || job.status == JobStatus::Published
            || job.status == JobStatus::Canceled) ==> r is Err,
{
}

/// A job that is publishing or published is neither unscheduled, canceled
/// nor removed by hand.
pub proof fn lemma_in_flight_jobs_untouchable(s: JobStatus)
    requires
        s == JobStatus::Publishing || s == JobStatus::Published,
    ensures
        s != JobStatus::Scheduled,
        !spec_cancelable(s),
        !spec_removable(s),
{
}

/// The check of a job database's workspace identity: the identities it
/// records, then the workspace the config declares.
#[derive(Debug)]
pub enum IdentityCheck {
    /// The database records none yet: record `config_id`.
    Record,
    /// The database belongs to this workspace.
    Matches,
}

/// A database belongs to one workspace: it records at most one identity,
/// and that one is the workspace's.
pub fn check_workspace_identity(identities: &Vec<String>, config_id: &str) -> (r: Result<
    IdentityCheck,
    AppError,
>)
    ensures
        identities@.len() == 0 ==> r matches Ok(IdentityCheck::Record),
        identities@.len() == 1 && identities@[0]@ == config_id@ ==> r matches Ok(
            IdentityCheck::Matches,
        ),
        identities@.len() == 1 && identities@[0]@ != config_id@ ==> (r matches Err(e)
            && is_validation(
            e,
            "Database belongs to workspace "@ + identities@[0]@ + " but config declares "@
                + config_id@ + "."@,
            Some("Select the matching workspace or use its own database."@),
            Some("publo paths"@),
        )),
        identities@.len() > 1 ==> (r matches Err(e) && is_validation(
            e,
            "Database has more than one workspace identity row."@,
            Some("Use a clean workspace database."@),
            None,
        )),
{
    if identities.len() == 0 {
        return Ok(IdentityCheck::Record);
    }
    if identities.len() > 1 {
        return Err(
            validation(
                "Database has more than one workspace identity row.".to_owned(),
                Some("Use a clean workspace database."),
                None,
            ),
        );
    }
    if str_eq(identities[0].as_str(), config_id) {
        return Ok(IdentityCheck::Matches);
    }
    let head = concat3("Database belongs to workspace ", identities[0].as_str(), " but config declares ");
    let message = concat3(head.as_str(), config_id, ".");
    Err(
        validation(
            message,
            Some("Select the matching workspace or use its own database."),
            Some("publo paths"),
        ),
    )
}

/// A table of the job database holds no rows of another workspace.
pub fn check_foreign_rows(table: &str, foreign_count: u64) -> (r: Result<(), AppError>)
    ensures
        r is Ok <==> foreign_count == 0,
        r matches Err(e) ==> is_validation(
            e,
            "Database contains "@ + spec_decimal(foreign_count as nat) + " "@ + table@
                + " record(s) for a different workspace."@,
            Some("Use a clean database for this workspace."@),
            None,
        ),
{
    if foreign_count == 0 {
        return Ok(());
    }
    let n = decimal(foreign_count);
    let message = concat5(
        "Database contains ",
        n.as_str(),
        " ",
        table,
        " record(s) for a different workspace.",
    );
    Err(validation(message, Some("Use a clean database for this workspace."), None))
}


/// The job after `job schedule`: scheduled at `run_at_utc` with no reason
/// when its preflight passed; else blocked with the preflight error's
/// message, its time left as it was.
pub open spec fn spec_scheduled(
    job: JobState,
    out: JobState,
    run_at_utc: Seq<char>,
    preflight_error: Option<AppError>,
) -> bool {
    &&& out.deleted == job.deleted
    &&& out.attempt_count == job.attempt_count
    &&& opt_seq(out.claim_token) == opt_seq(job.claim_token)
    &&& opt_seq(out.publishing_started_at) == opt_seq(job.publishing_started_at)
    &&& opt_seq(out.last_error_type) == opt_seq(job.last_error_type)
    &&& opt_seq(out.last_error_message) == opt_seq(job.last_error_message)
    &&& out.last_http_status == job.last_http_status
    &&& match preflight_error {
        None => {
            &&& out.status == JobStatus::Scheduled
            &&& opt_seq(out.run_at_utc) == Some(run_at_utc)
            &&& out.status_reason is None
        },
        Some(e) => {
            &&& out.status == JobStatus::Blocked
            &&& opt_seq(out.run_at_utc) == opt_seq(job.run_at_utc)
            &&& opt_seq(out.status_reason) == Some(crate::errors::spec_message(e))
        },
    }
}

/// `job schedule`: the job scheduled at `run_at_utc`, or blocked when its
/// preflight failed with `preflight_error`.
pub fn schedule_job(job: &JobState, run_at_utc: &str, preflight_error: &Option<AppError>) -> (out: JobState)
    ensures
        spec_scheduled(*job, out, run_at_utc@, *preflight_error),
{
    let (status, run_at, reason) = match preflight_error {
        None => (JobStatus::Scheduled, Some(run_at_utc.to_owned()), None),
        Some(e) => (JobStatus::Blocked, copy_opt(&job.run_at_utc), Some(e.to_output().message)),
    };
    JobState {
        status,
        run_at_utc: run_at,
        deleted: job.deleted,
        attempt_count: job.attempt_count,
        claim_token: copy_opt(&job.claim_token),
        publishing_started_at: copy_opt(&job.publishing_started_at),
        status_reason: reason,
        last_error_type: copy_opt(&job.last_error_type),
        last_error_message: copy_opt(&job.last_error_message),
        last_http_status: job.last_http_status,
    }
}

/// A job scheduled at a time is picked up by the worker exactly from that
/// time on (while it is not deleted), and a job whose preflight failed is
/// never picked up.
pub proof fn lemma_scheduled_job_due_at_its_time(
    job: JobState,
    out: JobState,
    run_at_utc: Seq<char>,
    preflight_error: Option<AppError>,
    now: Seq<char>,
)
    requires
        spec_scheduled(job, out, run_at_utc, preflight_error),
    ensures
        preflight_error is None && !job.deleted ==> (spec_claimable(out, now) <==> spec_text_le(
            run_at_utc,
            now,
        )),
        preflight_error is Some ==> !spec_claimable(out, now),
{
}

/// How a worker run goes: a dry run that only reports, or a live run that
/// publishes the oldest due job.
#[derive(Clone, Copy, PartialEq, Eq, Structural, Debug)]
pub enum WorkerMode {
    DryRun,
    Live,
}

/// The checks before a worker run: exactly one of `--dry-run` and `--live`,
/// with `--once`; a live run needs the publish password; and the database
/// must exist.
pub open spec fn spec_worker_run_check(
    r: Result<WorkerMode, AppError>,
    dry_run: bool,
    live: bool,
    once: bool,
    pass: Option<Seq<char>>,
    configured_pass: Option<Seq<char>>,
    db_exists: bool,
    db_path: Seq<char>,
) -> bool {
    if !once || dry_run == live {
        r matches Err(e) && is_validation(
            e,
            "Choose one worker mode: `--dry-run --once` or `--live --once --pass <publish-pass>`."@,
            Some("Run `publo worker run --dry-run --once` first to review what is due."@),
            Some("publo worker run --dry-run --once"@),
        )
    } else if live && !(pass is Some && pass == configured_pass) {
        r matches Err(e) && spec_publish_pass_result(Err(e), pass, configured_pass)
    } else if !db_exists {
        r matches Err(e) && is_validation(
            e,
            "Worker database does not exist: "@ + db_path,
            Some("Start Publo once or create scheduled jobs before running the worker."@),
            None,
        )
    } else {
        r == Ok::<WorkerMode, AppError>(if live { WorkerMode::Live } else { WorkerMode::DryRun })
    }
}

/// Whether a worker run may go ahead, and in which mode.
pub fn check_worker_run(
    dry_run: bool,
    live: bool,
    once: bool,
    pass: Option<&str>,
    config: &RuntimeConfig,
    db_exists: bool,
) -> (r: Result<WorkerMode, AppError>)
    ensures
        spec_worker_run_check(
            r,
            dry_run,
            live,
            once,
            opt_str(pass),
            opt_seq(config.publish_cli_password),
            db_exists,
            config.db_path@,
        ),
{
    if !once || dry_run == live {
        return Err(
            validation(
                "Choose one worker mode: `--dry-run --once` or `--live --once --pass <publish-pass>`.".to_owned(),
                Some("Run `publo worker run --dry-run --once` first to review what is due."),
                Some("publo worker run --dry-run --once"),
            ),
        );
    }
    if live {
        match validate_publish_pass(pass, config) {
            Ok(()) => {},
            Err(e) => {
                return Err(e);
            },
        }
    }
    if !db_exists {
        return Err(
            validation(
                concat2("Worker database does not exist: ", config.db_path.as_str()),
                Some("Start Publo once or create scheduled jobs before running the worker."),
                None,
            ),
        );
    }
    if live {
        Ok(WorkerMode::Live)
    } else {
        Ok(WorkerMode::DryRun)
    }
}

/// The number of due jobs whose preflight passed.
pub open spec fn spec_count_publishable(outcomes: Seq<bool>) -> nat
    decreases outcomes.len(),
{
    if outcomes.len() == 0 {
        0
    } else {
        spec_count_publishable(outcomes.drop_last()) + if outcomes.last() {
            1nat
        } else {
            0nat
        }
    }
}

/// The tally of a dry worker run.
#[derive(Debug)]
pub struct DryRunCounts {
    pub due_count: usize,
    pub publishable_count: usize,
    pub blocked_count: usize,
}

/// The tally of a dry worker run from whether each due job would publish:
/// every due job is either publishable or blocked.
pub fn dry_run_counts(would_publish: &Vec<bool>) -> (c: DryRunCounts)
    ensures
        c.due_count == would_publish@.len(),
        c.publishable_count == spec_count_publishable(would_publish@),
        c.publishable_count + c.blocked_count == c.due_count,
{
    let mut publishable: usize = 0;
    let mut blocked: usize = 0;
    let mut i: usize = 0;
    while i < would_publish.len()
        invariant
            0 <= i <= would_publish@.len(),
            publishable == spec_count_publishable(would_publish@.subrange(0, i as int)),
            publishable + blocked == i,
        decreases would_publish.len() - i,
    {
        proof {
            assert(would_publish@.subrange(0, i + 1).drop_last() =~= would_publish@.subrange(0, i as int));
        }
        if would_publish[i] {
            publishable = publishable + 1;
        } else {
            blocked = blocked + 1;
        }
        i = i + 1;
    }
    proof {
        assert(would_publish@.subrange(0, would_publish@.len() as int) =~= would_publish@);
    }
    DryRunCounts { due_count: would_publish.len(), publishable_count: publishable, blocked_count: blocked }
}


/// Which jobs are due at `now`.
pub open spec fn spec_due_flags(jobs: Seq<JobState>, now: Seq<char>) -> Seq<bool> {
    Seq::new(jobs.len(), |k: int| spec_claimable(jobs[k], now))
}

/// Which jobs hold a claim that expired at `expires_before`.
pub open spec fn spec_interrupted_flags(jobs: Seq<JobState>, expires_before: Seq<char>) -> Seq<bool> {
    Seq::new(jobs.len(), |k: int| spec_claim_expired(jobs[k], expires_before))
}

/// Which jobs are due at `now` and passed their preflight.
pub open spec fn spec_publishable_flags(jobs: Seq<JobState>, now: Seq<char>, preflight_ok: Seq<bool>) -> Seq<bool> {
    Seq::new(jobs.len(), |k: int| spec_claimable(jobs[k], now) && preflight_ok[k])
}

/// What a dry worker run reports.
#[derive(Debug)]
pub struct DryRunReport {
    pub interrupted_count: usize,
    pub due_count: usize,
    pub publishable_count: usize,
    pub blocked_count: usize,
}

/// The report of a dry worker run over the stored jobs, read and not
/// changed: the jobs whose claim expired at `expires_before`, the jobs due at
/// `now`, and of those the ones whose preflight passed (`preflight_ok[k]`
/// for `jobs[k]`) or did not; every due job is publishable or blocked.
pub fn dry_run_report(
    jobs: &Vec<JobState>,
    now: &str,
    expires_before: &str,
    preflight_ok: &Vec<bool>,
) -> (r: DryRunReport)
    requires
        jobs@.len() == preflight_ok@.len(),
    ensures
        r.interrupted_count == spec_count_publishable(spec_interrupted_flags(jobs@, expires_before@)),
        r.due_count == spec_count_publishable(spec_due_flags(jobs@, now@)),
        r.publishable_count == spec_count_publishable(spec_publishable_flags(jobs@, now@, preflight_ok@)),
        r.publishable_count + r.blocked_count == r.due_count,
{
    let ghost due = spec_due_flags(jobs@, now@);
    let ghost interrupted = spec_interrupted_flags(jobs@, expires_before@);
    let ghost publishable = spec_publishable_flags(jobs@, now@, preflight_ok@);
    let mut n_interrupted: usize = 0;
    let mut n_due: usize = 0;
    let mut n_publishable: usize = 0;
    let mut i: usize = 0;
    while i < jobs.len()
        invariant
            jobs@.len() == preflight_ok@.len(),
            0 <= i <= jobs@.len(),
            due == spec_due_flags(jobs@, now@),
            interrupted == spec_interrupted_flags(jobs@, expires_before@),
            publishable == spec_publishable_flags(jobs@, now@, preflight_ok@),
            n_interrupted == spec_count_publishable(interrupted.subrange(0, i as int)),
            n_due == spec_count_publishable(due.subrange(0, i as int)),
            n_publishable == spec_count_publishable(publishable.subrange(0, i as int)),
            n_publishable <= n_due <= i,
            n_interrupted <= i,
        decreases jobs.len() - i,
    {
        proof {
            assert(due.subrange(0, i + 1).drop_last() =~= due.subrange(0, i as int));
            assert(interrupted.subrange(0, i + 1).drop_last() =~= interrupted.subrange(0, i as int));
            assert(publishable.subrange(0, i + 1).drop_last() =~= publishable.subrange(0, i as int));
        }
        if claim_expired(&jobs[i], expires_before) {
            n_interrupted = n_interrupted + 1;
        }
        if claim_due_job_test(&jobs[i], now) {
            n_due = n_due + 1;
            if preflight_ok[i] {
                n_publishable = n_publishable + 1;
            }
        }
        i = i + 1;
    }
    proof {
        assert(due.subrange(0, jobs@.len() as int) =~= due);
        assert(interrupted.subrange(0, jobs@.len() as int) =~= interrupted);
        assert(publishable.subrange(0, jobs@.len() as int) =~= publishable);
    }
    DryRunReport {
        interrupted_count: n_interrupted,
        due_count: n_due,
        publishable_count: n_publishable,
        blocked_count: n_due - n_publishable,
    }
}

/// The job with its time set to `run_at_utc`: for a job of the decision
/// queue (ready, blocked, canceled or disabled) its reason is cleared too;
/// any other job is refused with `refusal`.
pub open spec fn spec_time_set(
    r: Result<JobState, AppError>,
    job: JobState,
    allowed: bool,
    clears_reason: bool,
    run_at_utc: Seq<char>,
    refusal: Seq<char>,
) -> bool {
    if allowed {
        r matches Ok(out) && out.status == job.status && opt_seq(out.run_at_utc) == Some(run_at_utc)
            && (if clears_reason {
            out.status_reason is None
        } else {
            opt_seq(out.status_reason) == opt_seq(job.status_reason)
        }) && out.attempt_count == job.attempt_count && out.deleted == job.deleted && opt_seq(
            out.claim_token,
        ) == opt_seq(job.claim_token) && opt_seq(out.publishing_started_at) == opt_seq(
            job.publishing_started_at,
        )
    } else {
        r matches Err(e) && is_validation(e, refusal, None, None)
    }
}

fn with_time(job: &JobState, run_at_utc: &str, reason: Option<String>) -> (out: JobState)
    ensures
        out.status == job.status,
        opt_seq(out.run_at_utc) == Some(run_at_utc@),
        out.status_reason == reason,
        out.attempt_count == job.attempt_count,
        out.deleted == job.deleted,
        opt_seq(out.claim_token) == opt_seq(job.claim_token),
        opt_seq(out.publishing_started_at) == opt_seq(job.publishing_started_at),
{
    JobState {
        status: job.status,
        run_at_utc: Some(run_at_utc.to_owned()),
        deleted: job.deleted,
        attempt_count: job.attempt_count,
        claim_token: copy_opt(&job.claim_token),
        publishing_started_at: copy_opt(&job.publishing_started_at),
        status_reason: reason,
        last_error_type: copy_opt(&job.last_error_type),
        last_error_message: copy_opt(&job.last_error_message),
        last_http_status: job.last_http_status,
    }
}

/// Setting the planned time of a job in the decision queue.
pub fn set_ready_time(job: &JobState, run_at_utc: &str) -> (r: Result<JobState, AppError>)
    ensures
        spec_time_set(
            r,
            *job,
            spec_removable(job.status),
            true,
            run_at_utc@,
            "Only decision-queue jobs can set schedule time."@,
        ),
{
    if !removable_status(job.status) {
        return Err(validation("Only decision-queue jobs can set schedule time.".to_owned(), None, None));
    }
    Ok(with_time(job, run_at_utc, None))
}

/// Moving a scheduled job to another time.
pub fn set_scheduled_time(job: &JobState, run_at_utc: &str) -> (r: Result<JobState, AppError>)
    ensures
        spec_time_set(
            r,
            *job,
            job.status == JobStatus::Scheduled,
            false,
            run_at_utc@,
            "Only scheduled jobs can be rescheduled."@,
        ),
{
    if job.status != JobStatus::Scheduled {
        return Err(validation("Only scheduled jobs can be rescheduled.".to_owned(), None, None));
    }
    let reason = copy_opt(&job.status_reason);
    Ok(with_time(job, run_at_utc, reason))
}

/// A rescheduled job stays scheduled and is due exactly from its new time on.
pub proof fn lemma_rescheduled_job_due_at_new_time(
    r: Result<JobState, AppError>,
    job: JobState,
    run_at_utc: Seq<char>,
    now: Seq<char>,
)
    requires
        job.status == JobStatus::Scheduled,
        !job.deleted,
        spec_time_set(r, job, true, false, run_at_utc, "Only scheduled jobs can be rescheduled."@),
    ensures
        r matches Ok(out) && out.status == JobStatus::Scheduled && (spec_claimable(out, now)
            <==> spec_text_le(run_at_utc, now)),
{
}

/// The limit of `job list`: at least one job.
pub fn validate_list_limit(limit: u32) -> (r: Result<(), AppError>)
    ensures
        r is Ok <==> limit >= 1,
        r matches Err(e) ==> is_validation(
            e,
            "--limit must be >= 1."@,
            Some("Use --limit 1 or greater."@),
            None,
        ),
{
    if limit == 0 {
        return Err(validation("--limit must be >= 1.".to_owned(), Some("Use --limit 1 or greater."), None));
    }
    Ok(())
}

} // verus!
