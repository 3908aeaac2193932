//! Extraction jobs and the state of queries.

use vstd::prelude::*;
use vstd::string::*;

use crate::json::{items_view, json_view, no_fields, signed_view, Json, JsonObject, JsonView};
use crate::text::{decimal, join_texts, joined, push_decimal, same_text, strings_view};
use crate::tools::annotations::{error_body, error_view};

verus! {

/// An extraction job.
pub struct JobRow {
    pub job_id: String,
    pub file: String,
    pub layer: String,
    pub status: String,
    pub trigger_query: Json,
    pub started_at: Json,
    pub completed_at: Json,
}

/// How many jobs of a query there are of each status.
#[derive(Clone, Copy, Debug, PartialEq, Eq, Structural)]
pub struct JobCounts {
    pub queued: i64,
    pub building: i64,
    pub complete: i64,
    pub failed: i64,
}

/// A job as it is listed.
pub open spec fn job_view(job: JobRow) -> JsonView {
    JsonView::Object(
        no_fields().insert("job_id"@, JsonView::Str(job.job_id@)).insert(
            "file"@,
            JsonView::Str(job.file@),
        ).insert("layer"@, JsonView::Str(job.layer@)).insert(
            "status"@,
            JsonView::Str(job.status@),
        ).insert("capability"@, JsonView::Str(job.layer@)).insert(
            "trigger_query"@,
            job.trigger_query@,
        ).insert("started_at"@, job.started_at@).insert("completed_at"@, job.completed_at@),
    )
}

/// What is said of the jobs that have not ended.
pub open spec fn pending_message(pending: int) -> Seq<char> {
    if pending > 0 {
        decimal(pending as nat) + " extraction job(s) pending"@
    } else {
        "no active extraction jobs"@
    }
}

/// The list of jobs. For a single query there is also how far it has come.
pub open spec fn jobs_fields(
    jobs: Seq<JobRow>,
    counts: Option<JobCounts>,
) -> Map<Seq<char>, JsonView> {
    let base = no_fields().insert(
        "jobs"@,
        JsonView::Array(Seq::new(jobs.len(), |i: int| job_view(jobs[i]))),
    ).insert("total"@, JsonView::Unsigned(jobs.len() as u64));
    match counts {
        Some(c) => base.insert(
            "progress"@,
            JsonView::Object(
                no_fields().insert("queued"@, signed_view(c.queued)).insert(
                    "building"@,
                    signed_view(c.building),
                ).insert("complete"@, signed_view(c.complete)).insert(
                    "failed"@,
                    signed_view(c.failed),
                ),
            ),
        ).insert("pending_jobs"@, signed_view((c.queued + c.building) as i64)).insert(
            "message"@,
            JsonView::Str(pending_message(c.queued + c.building)),
        ),
        None => base,
    }
}

/// What a request for jobs is answered.
pub open spec fn jobs_view(
    jobs: Result<Vec<JobRow>, String>,
    counts: Option<JobCounts>,
) -> JsonView {
    match jobs {
        Ok(list) => JsonView::Object(jobs_fields(list@, counts)),
        Err(e) => error_view("Error listing jobs: "@ + e@),
    }
}

/// The list of jobs, and whether it is an error. The counts are those of the query
/// that is asked for.
pub fn atlas_jobs_body(jobs: &Result<Vec<JobRow>, String>, counts: Option<JobCounts>) -> (reply: (
    Json,
    bool,
))
    requires
        jobs is Ok ==> (counts matches Some(c) ==> i64::MIN <= c.queued + c.building <= i64::MAX),
    ensures
        reply.0@ == jobs_view(*jobs, counts),
        reply.1 == jobs is Err,
{
    let list = match jobs {
        Ok(list) => list,
        Err(e) => {
            let mut message = "Error listing jobs: ".to_owned();
            message.append(e.as_str());
            return (error_body(message), true);
        },
    };
    let mut items: Vec<Json> = Vec::new();
    let mut i: usize = 0;
    while i < list.len()
        invariant
            i <= list@.len(),
            items@.len() == i,
            forall|j: int| 0 <= j < i ==> (#[trigger] items@[j])@ == job_view(list@[j]),
        decreases list@.len() - i,
    {
        let job = &list[i];
        let mut object = JsonObject::new();
        object.put("job_id", Json::text(job.job_id.as_str()));
        object.put("file", Json::text(job.file.as_str()));
        object.put("layer", Json::text(job.layer.as_str()));
        object.put("status", Json::text(job.status.as_str()));
        object.put("capability", Json::text(job.layer.as_str()));
        object.put("trigger_query", job.trigger_query.clone());
        object.put("started_at", job.started_at.clone());
        object.put("completed_at", job.completed_at.clone());
        items.push(Json::Object(object));
        i = i + 1;
    }
    proof {
        assert(items_view(items@) =~= Seq::new(list@.len(), |i: int| job_view(list@[i])));
    }
    let mut object = JsonObject::new();
    object.put("jobs", Json::Array(items));
    object.put("total", Json::count(list.len()));
    match counts {
        Some(c) => {
            let mut progress = JsonObject::new();
            progress.put("queued", Json::Signed(c.queued));
            progress.put("building", Json::Signed(c.building));
            progress.put("complete", Json::Signed(c.complete));
            progress.put("failed", Json::Signed(c.failed));
            object.put("progress", Json::Object(progress));
            let pending: i64 = c.queued + c.building;
            object.put("pending_jobs", Json::Signed(pending));
            let message = if pending > 0 {
                let mut text = String::new();
                push_decimal(&mut text, pending as u64);
                proof {
                    assert(text@ =~= decimal(pending as nat));
                }
                text.append(" extraction job(s) pending");
                text
            } else {
                "no active extraction jobs".to_owned()
            };
            object.put("message", Json::Str(message));
        },
        None => {},
    }
    (Json::Object(object), false)
}

/// A job that a query waits for and that failed, and why.
pub struct WatchedFailure {
    pub job_id: String,
    pub reason: String,
}

/// An extraction job that a query waits for.
pub struct AwaitedJob {
    pub job_id: String,
    pub status: String,
    pub error_msg: Option<String>,
}

/// What is said of a failure.
pub open spec fn failure_line(job_id: Seq<char>, reason: Seq<char>) -> Seq<char> {
    job_id + ": "@ + reason
}

/// Why an extraction job failed.
pub open spec fn failure_reason(job: AwaitedJob) -> Seq<char> {
    match job.error_msg {
        Some(e) => e@,
        None => "background extraction failed"@,
    }
}

/// What is said of the extraction jobs that failed.
pub open spec fn job_failures(jobs: Seq<AwaitedJob>) -> Seq<Seq<char>>
    decreases jobs.len(),
{
    if jobs.len() == 0 {
        Seq::empty()
    } else {
        let before = job_failures(jobs.drop_last());
        if jobs.last().status@ == "failed"@ {
            before.push(failure_line(jobs.last().job_id@, failure_reason(jobs.last())))
        } else {
            before
        }
    }
}

/// What is said of all that failed: watched work first.
pub open spec fn all_failures(
    watched: Seq<WatchedFailure>,
    jobs: Seq<AwaitedJob>,
) -> Seq<Seq<char>> {
    Seq::new(watched.len(), |i: int| failure_line(watched[i].job_id@, watched[i].reason@))
        + job_failures(jobs)
}

fn line_of(job_id: &str, reason: &str) -> (line: String)
    ensures
        line@ == failure_line(job_id@, reason@),
{
    let mut line = job_id.to_owned();
    line.append(": ");
    line.append(reason);
    line
}

/// What is said of all that failed.
pub fn query_failures(watched: &Vec<WatchedFailure>, jobs: &Vec<AwaitedJob>) -> (lines: Vec<String>)
    ensures
        strings_view(lines@) == all_failures(watched@, jobs@),
{
    let mut lines: Vec<String> = Vec::new();
    let mut i: usize = 0;
    while i < watched.len()
        invariant
            i <= watched@.len(),
            lines@.len() == i,
            forall|j: int|
                0 <= j < i ==> (#[trigger] lines@[j])@ == failure_line(
                    watched@[j].job_id@,
                    watched@[j].reason@,
                ),
        decreases watched@.len() - i,
    {
        lines.push(line_of(watched[i].job_id.as_str(), watched[i].reason.as_str()));
        i = i + 1;
    }
    let ghost first = strings_view(lines@);
    let mut k: usize = 0;
    proof {
        assert(first =~= Seq::new(
            watched@.len(),
            |i: int| failure_line(watched@[i].job_id@, watched@[i].reason@),
        ));
        assert(jobs@.take(0) =~= Seq::empty());
        assert(first + job_failures(jobs@.take(0)) =~= first);
    }
    while k < jobs.len()
        invariant
            k <= jobs@.len(),
            strings_view(lines@) == first + job_failures(jobs@.take(k as int)),
        decreases jobs@.len() - k,
    {
        proof {
            assert(jobs@.take(k + 1).drop_last() =~= jobs@.take(k as int));
        }
        if same_text(jobs[k].status.as_str(), "failed") {
            let ghost before = lines@;
            let line = match &jobs[k].error_msg {
                Some(e) => line_of(jobs[k].job_id.as_str(), e.as_str()),
                None => line_of(jobs[k].job_id.as_str(), "background extraction failed"),
            };
            lines.push(line);
            proof {
                assert(strings_view(lines@) =~= strings_view(before).push(line@));
                assert(first + job_failures(jobs@.take(k + 1)) =~= (first + job_failures(
                    jobs@.take(k as int),
                )).push(line@));
            }
        }
        k = k + 1;
    }
    proof {
        assert(jobs@.take(k as int) =~= jobs@);
    }
    lines
}

/// What is stored of a query, and how far it has come.
pub struct QueryProgress {
    pub tool_name: String,
    /// What failed.
    pub failures: Vec<String>,
    pub pending: u64,
    pub retry_after_ms: u64,
}

/// The state of a query: a failure goes before everything else.
pub open spec fn query_state_fields(
    query_id: Seq<char>,
    progress: Option<QueryProgress>,
) -> Map<Seq<char>, JsonView> {
    let named = no_fields().insert("query_id"@, JsonView::Str(query_id));
    match progress {
        None => named.insert("status"@, JsonView::Str("not_found_or_expired"@)).insert(
            "pending_jobs"@,
            JsonView::Unsigned(0),
        ),
        Some(p) => if p.failures@.len() > 0 {
            named.insert("tool"@, JsonView::Str(p.tool_name@)).insert(
                "status"@,
                JsonView::Str("failed"@),
            ).insert("pending_jobs"@, JsonView::Unsigned(0)).insert(
                "detail"@,
                JsonView::Str(joined(strings_view(p.failures@), "; "@)),
            )
        } else {
            let state = named.insert("tool"@, JsonView::Str(p.tool_name@)).insert(
                "status"@,
                JsonView::Str(
                    if p.pending == 0 {
                        "ready"@
                    } else {
                        "refining"@
                    },
                ),
            ).insert("pending_jobs"@, JsonView::Unsigned(p.pending));
            if p.pending > 0 {
                state.insert("retry_after_ms"@, JsonView::Unsigned(p.retry_after_ms))
            } else {
                state
            }
        },
    }
}

/// The state of a query, where anything is stored of it.
pub fn query_state(query_id: &str, progress: &Option<QueryProgress>) -> (state: Json)
    ensures
        state@ == JsonView::Object(query_state_fields(query_id@, *progress)),
{
    let mut object = JsonObject::new();
    object.put("query_id", Json::text(query_id));
    match progress {
        None => {
            object.put("status", Json::text("not_found_or_expired"));
            object.put("pending_jobs", Json::Unsigned(0));
        },
        Some(p) => {
            object.put("tool", Json::text(p.tool_name.as_str()));
            if p.failures.len() > 0 {
                object.put("status", Json::text("failed"));
                object.put("pending_jobs", Json::Unsigned(0));
                object.put("detail", Json::Str(join_texts(&p.failures, "; ")));
            } else {
                object.put(
                    "status",
                    if p.pending == 0 {
                        Json::text("ready")
                    } else {
                        Json::text("refining")
                    },
                );
                object.put("pending_jobs", Json::Unsigned(p.pending));
                if p.pending > 0 {
                    object.put("retry_after_ms", Json::Unsigned(p.retry_after_ms));
                }
            }
        },
    }
    Json::Object(object)
}

/// What a request for tasks is answered.
pub open spec fn tasks_fields(
    active_jobs: JsonView,
    atlas_jobs: JsonView,
    query: Option<JsonView>,
) -> Map<Seq<char>, JsonView> {
    let base = no_fields().insert("active_extraction_jobs"@, active_jobs).insert(
        "atlas_jobs"@,
        atlas_jobs,
    );
    match query {
        Some(q) => base.insert("query"@, q),
        None => base,
    }
}

/// What a request for tasks is answered: the jobs, and the state of the query that
/// is asked for.
pub fn tasks_body(active_jobs: Json, atlas_jobs: Json, query: Option<Json>) -> (body: Json)
    ensures
        body@ == JsonView::Object(tasks_fields(active_jobs@, atlas_jobs@, json_view(query))),
{
    let mut object = JsonObject::new();
    object.put("active_extraction_jobs", active_jobs);
    object.put("atlas_jobs", atlas_jobs);
    match query {
        Some(q) => {
            object.put("query", q);
        },
        None => {},
    }
    Json::Object(object)
}

/// A query that failed is not waited for, and one that is waited for says how long.
pub proof fn law_only_refining_queries_are_retried(
    query_id: Seq<char>,
    progress: Option<QueryProgress>,
)
    ensures
        query_state_fields(query_id, progress).contains_key("retry_after_ms"@) <==> (
        progress matches Some(p) && p.failures@.len() == 0 && p.pending > 0),
{
    reveal_strlit("retry_after_ms");
    reveal_strlit("query_id");
    reveal_strlit("status");
    reveal_strlit("pending_jobs");
    reveal_strlit("tool");
    reveal_strlit("detail");
    assert("retry_after_ms"@[0] == 'r');
    assert("query_id"@[0] == 'q');
    assert("status"@[0] == 's');
    assert("pending_jobs"@[0] == 'p');
    assert("tool"@[0] == 't');
    assert("detail"@[0] == 'd');
}

/// Whether a listed value tells a job.
pub open spec fn tells_job(listed: JsonView, job: JobRow) -> bool {
    &&& listed.text_field("job_id"@) == Some(job.job_id@)
    &&& listed.text_field("file"@) == Some(job.file@)
    &&& listed.text_field("layer"@) == Some(job.layer@)
    &&& listed.text_field("status"@) == Some(job.status@)
    &&& listed.text_field("capability"@) == Some(job.layer@)
    &&& listed.field("trigger_query"@) == Some(job.trigger_query@)
    &&& listed.field("started_at"@) == Some(job.started_at@)
    &&& listed.field("completed_at"@) == Some(job.completed_at@)
}

/// Every job is listed, in order, and they are counted; of a single query there is also how
/// many of its jobs are in each state, and how many have not ended.
pub proof fn law_every_job_is_listed(jobs: Seq<JobRow>, counts: Option<JobCounts>)
    requires
        counts matches Some(c) ==> c.queued >= 0 && c.building >= 0 && c.complete >= 0 && c.failed
            >= 0 && c.queued + c.building <= i64::MAX,
    ensures
        ({
            let body = JsonView::Object(jobs_fields(jobs, counts));
            &&& body.unsigned_field("total"@) == Some(jobs.len() as u64)
            &&& body.field("jobs"@) matches Some(JsonView::Array(listed)) && listed.len()
                == jobs.len() && forall|i: int|
                0 <= i < listed.len() ==> tells_job(#[trigger] listed[i], jobs[i])
            &&& body.field("progress"@) is Some == counts is Some
            &&& counts matches Some(c) ==> (body.field("progress"@) matches Some(progress)
                && progress.unsigned_field("queued"@) == Some(c.queued as u64)
                && progress.unsigned_field("building"@) == Some(c.building as u64)
                && progress.unsigned_field("complete"@) == Some(c.complete as u64)
                && progress.unsigned_field("failed"@) == Some(c.failed as u64)
                && body.unsigned_field("pending_jobs"@) == Some((c.queued + c.building) as u64))
        }),
{
    reveal_strlit("jobs");
    reveal_strlit("total");
    reveal_strlit("progress");
    reveal_strlit("pending_jobs");
    reveal_strlit("message");
    reveal_strlit("queued");
    reveal_strlit("building");
    reveal_strlit("complete");
    reveal_strlit("failed");
    reveal_strlit("job_id");
    reveal_strlit("file");
    reveal_strlit("layer");
    reveal_strlit("status");
    reveal_strlit("capability");
    reveal_strlit("trigger_query");
    reveal_strlit("started_at");
    reveal_strlit("completed_at");
    assert("jobs"@.len() != "total"@.len());
    assert("jobs"@.len() != "progress"@.len());
    assert("jobs"@.len() != "pending_jobs"@.len());
    assert("jobs"@.len() != "message"@.len());
    assert("total"@.len() != "progress"@.len());
    assert("total"@.len() != "pending_jobs"@.len());
    assert("total"@.len() != "message"@.len());
    assert("progress"@.len() != "pending_jobs"@.len());
    assert("progress"@.len() != "message"@.len());
    assert("pending_jobs"@.len() != "message"@.len());
    assert("queued"@.len() != "building"@.len());
    assert("queued"@.len() != "complete"@.len());
    assert("queued"@[0] != "failed"@[0]);
    assert("building"@[0] != "complete"@[0]);
    assert("building"@.len() != "failed"@.len());
    assert("complete"@.len() != "failed"@.len());
    assert("job_id"@.len() != "file"@.len());
    assert("job_id"@.len() != "layer"@.len());
    assert("job_id"@[0] != "status"@[0]);
    assert("job_id"@.len() != "capability"@.len());
    assert("job_id"@.len() != "trigger_query"@.len());
    assert("job_id"@.len() != "started_at"@.len());
    assert("job_id"@.len() != "completed_at"@.len());
    assert("file"@.len() != "layer"@.len());
    assert("file"@.len() != "status"@.len());
    assert("file"@.len() != "capability"@.len());
    assert("file"@.len() != "trigger_query"@.len());
    assert("file"@.len() != "started_at"@.len());
    assert("file"@.len() != "completed_at"@.len());
    assert("layer"@.len() != "status"@.len());
    assert("layer"@.len() != "capability"@.len());
    assert("layer"@.len() != "trigger_query"@.len());
    assert("layer"@.len() != "started_at"@.len());
    assert("layer"@.len() != "completed_at"@.len());
    assert("status"@.len() != "capability"@.len());
    assert("status"@.len() != "trigger_query"@.len());
    assert("status"@.len() != "started_at"@.len());
    assert("status"@.len() != "completed_at"@.len());
    assert("capability"@.len() != "trigger_query"@.len());
    assert("capability"@[0] != "started_at"@[0]);
    assert("capability"@.len() != "completed_at"@.len());
    assert("trigger_query"@.len() != "started_at"@.len());
    assert("trigger_query"@.len() != "completed_at"@.len());
    assert("started_at"@.len() != "completed_at"@.len());
    let body = JsonView::Object(jobs_fields(jobs, counts));
    if let Some(JsonView::Array(listed)) = body.field("jobs"@) {
        assert forall|i: int| 0 <= i < listed.len() implies tells_job(
            #[trigger] listed[i],
            jobs[i],
        ) by {
            assert(listed[i] == job_view(jobs[i]));
        }
    }
}

/// Whether a line tells that a job failed, and why.
pub open spec fn tells_failure(line: Seq<char>, job_id: Seq<char>, reason: Seq<char>) -> bool {
    job_id.is_prefix_of(line) && reason.is_suffix_of(line) && line.len() == job_id.len() + 2
        + reason.len()
}

proof fn lemma_failure_is_told(job_id: Seq<char>, reason: Seq<char>)
    ensures
        tells_failure(failure_line(job_id, reason), job_id, reason),
{
    reveal_strlit(": ");
    let line = failure_line(job_id, reason);
    assert(line.subrange(0, job_id.len() as int) =~= job_id);
    assert(line.subrange(line.len() - reason.len(), line.len() as int) =~= reason);
}

proof fn lemma_job_failures(jobs: Seq<AwaitedJob>)
    ensures
        ({
            let lines = job_failures(jobs);
            let failed = jobs.filter(|job: AwaitedJob| job.status@ == "failed"@);
            &&& lines.len() == failed.len()
            &&& forall|i: int|
                0 <= i < lines.len() ==> tells_failure(
                    #[trigger] lines[i],
                    failed[i].job_id@,
                    failure_reason(failed[i]),
                )
        }),
    decreases jobs.len(),
{
    reveal(Seq::filter);
    if jobs.len() > 0 {
        lemma_job_failures(jobs.drop_last());
        lemma_failure_is_told(jobs.last().job_id@, failure_reason(jobs.last()));
        let before = job_failures(jobs.drop_last());
        let lines = job_failures(jobs);
        let failed = jobs.filter(|job: AwaitedJob| job.status@ == "failed"@);
        assert forall|i: int| 0 <= i < lines.len() implies tells_failure(
            #[trigger] lines[i],
            failed[i].job_id@,
            failure_reason(failed[i]),
        ) by {
            if i < before.len() {
                assert(lines[i] == before[i]);
            }
        }
    }
}

/// All that failed is told, a line for each: first the watched work, then the jobs whose
/// status says so, each in order and with its reason.
pub proof fn law_all_failures_are_told(watched: Seq<WatchedFailure>, jobs: Seq<AwaitedJob>)
    ensures
        ({
            let lines = all_failures(watched, jobs);
            let failed = jobs.filter(|job: AwaitedJob| job.status@ == "failed"@);
            &&& lines.len() == watched.len() + failed.len()
            &&& forall|i: int|
                0 <= i < watched.len() ==> tells_failure(
                    #[trigger] lines[i],
                    watched[i].job_id@,
                    watched[i].reason@,
                )
            &&& forall|i: int|
                0 <= i < failed.len() ==> tells_failure(
                    lines[watched.len() + i],
                    (#[trigger] failed[i]).job_id@,
                    failure_reason(failed[i]),
                )
            &&& forall|i: int|
                0 <= i < failed.len() ==> ((#[trigger] failed[i]).error_msg matches Some(e)
                    ==> failure_reason(failed[i]) == e@)
        }),
{
    lemma_job_failures(jobs);
    let lines = all_failures(watched, jobs);
    let failed = jobs.filter(|job: AwaitedJob| job.status@ == "failed"@);
    assert forall|i: int| 0 <= i < watched.len() implies tells_failure(
        #[trigger] lines[i],
        watched[i].job_id@,
        watched[i].reason@,
    ) by {
        lemma_failure_is_told(watched[i].job_id@, watched[i].reason@);
    }
    assert forall|i: int| 0 <= i < failed.len() implies tells_failure(
        lines[watched.len() + i],
        (#[trigger] failed[i]).job_id@,
        failure_reason(failed[i]),
    ) by {
        assert(lines[watched.len() + i] == job_failures(jobs)[i]);
    }
}

/// A query is failed where anything failed, whatever is still pending; else it is refining
/// while something is pending, and ready after that. One that is not stored is said to be
/// unknown.
pub proof fn law_query_state_is_told(query_id: Seq<char>, progress: Option<QueryProgress>)
    ensures
        ({
            let state = JsonView::Object(query_state_fields(query_id, progress));
            let failed = progress matches Some(p) && p.failures@.len() > 0;
            let pending = if failed || progress is None {
                0
            } else {
                progress->0.pending
            };
            &&& state.text_field("query_id"@) == Some(query_id)
            &&& state.text_field("tool"@) == if progress is Some {
                Some(progress->0.tool_name@)
            } else {
                None
            }
            &&& progress is None ==> state.text_field("status"@) == Some("not_found_or_expired"@)
            &&& failed ==> state.text_field("status"@) == Some("failed"@)
            &&& progress is Some && !failed && pending == 0 ==> state.text_field("status"@) == Some(
                "ready"@,
            )
            &&& progress is Some && !failed && pending > 0 ==> state.text_field("status"@) == Some(
                "refining"@,
            ) && state.unsigned_field("retry_after_ms"@) == Some(progress->0.retry_after_ms)
            &&& state.unsigned_field("pending_jobs"@) == Some(pending)
            &&& state.field("detail"@) is Some == failed
        }),
{
    reveal_strlit("query_id");
    reveal_strlit("tool");
    reveal_strlit("status");
    reveal_strlit("pending_jobs");
    reveal_strlit("detail");
    reveal_strlit("retry_after_ms");
    assert("query_id"@.len() != "tool"@.len());
    assert("query_id"@.len() != "status"@.len());
    assert("query_id"@.len() != "pending_jobs"@.len());
    assert("query_id"@.len() != "detail"@.len());
    assert("query_id"@.len() != "retry_after_ms"@.len());
    assert("tool"@.len() != "status"@.len());
    assert("tool"@.len() != "pending_jobs"@.len());
    assert("tool"@.len() != "detail"@.len());
    assert("tool"@.len() != "retry_after_ms"@.len());
    assert("status"@.len() != "pending_jobs"@.len());
    assert("status"@[0] != "detail"@[0]);
    assert("status"@.len() != "retry_after_ms"@.len());
    assert("pending_jobs"@.len() != "detail"@.len());
    assert("pending_jobs"@.len() != "retry_after_ms"@.len());
    assert("detail"@.len() != "retry_after_ms"@.len());
}

/// The jobs of both kinds are told under their own names, and the query where one is asked
/// for.
pub proof fn law_tasks_are_told(
    active_jobs: JsonView,
    atlas_jobs: JsonView,
    query: Option<JsonView>,
)
    ensures
        ({
            let body = JsonView::Object(tasks_fields(active_jobs, atlas_jobs, query));
            &&& body.field("active_extraction_jobs"@) == Some(active_jobs)
            &&& body.field("atlas_jobs"@) == Some(atlas_jobs)
            &&& body.field("query"@) == query
        }),
{
    reveal_strlit("active_extraction_jobs");
    reveal_strlit("atlas_jobs");
    reveal_strlit("query");
    assert("active_extraction_jobs"@.len() != "atlas_jobs"@.len());
    assert("active_extraction_jobs"@.len() != "query"@.len());
    assert("atlas_jobs"@.len() != "query"@.len());
}

/// How many jobs have not ended is said in words, where there are any.
pub proof fn law_pending_jobs_are_told(pending: int)
    ensures
        pending > 0 ==> decimal(pending as nat).is_prefix_of(pending_message(pending)),
        pending <= 0 ==> pending_message(pending) == "no active extraction jobs"@,
{
    let message = pending_message(pending);
    let count = decimal(pending as nat);
    if pending > 0 {
        assert(message.subrange(0, count.len() as int) =~= count);
    }
}

} // verus!
