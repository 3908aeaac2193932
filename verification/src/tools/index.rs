//! Indexing a project: what a request asks for, what is reported on the way, and
//! what is answered.

use vstd::prelude::*;
use vstd::string::*;

use crate::json::{items_view, no_fields, Json, JsonObject, JsonView};
use crate::protocol::{text_array, texts_to_json};
use crate::text::{decimal, push_decimal, string_view, strings_view};
use crate::tools::args::{flag_arg, flag_of};

verus! {

/// How many patterns of either sort an index request may hold.
pub const MAX_INDEX_PATTERNS: usize = 100;

/// After how long indexing counts as slow.
pub const SLOW_INDEX_MS: u64 = 30_000;

/// From how many files on a project counts as large.
pub const LARGE_PROJECT_FILES: usize = 5_000;

/// What an index request asks for.
pub struct IndexRequest {
    /// How deep the analysis goes.
    pub analysis: String,
    pub force_reindex: bool,
    pub background: bool,
    /// Whether the client did not ask for the background itself.
    pub auto_background: bool,
    /// The patterns of the files to index.
    pub only: Vec<String>,
    /// The patterns of the files to leave out.
    pub except: Vec<String>,
}

/// The strings of an array; other elements are passed over.
pub open spec fn texts_in(items: Seq<JsonView>) -> Seq<Seq<char>>
    decreases items.len(),
{
    if items.len() == 0 {
        Seq::empty()
    } else {
        match items.last().text() {
            Some(t) => texts_in(items.drop_last()).push(t),
            None => texts_in(items.drop_last()),
        }
    }
}

/// The patterns of an argument.
pub open spec fn patterns_of(args: JsonView, name: Seq<char>) -> Seq<Seq<char>> {
    match args.field(name) {
        Some(JsonView::Array(items)) => texts_in(items),
        _ => Seq::empty(),
    }
}

fn read_patterns(args: &Json, name: &str) -> (patterns: Vec<String>)
    ensures
        strings_view(patterns@) == patterns_of(args@, name@),
{
    let mut patterns: Vec<String> = Vec::new();
    proof {
        assert(strings_view(patterns@) =~= Seq::empty());
    }
    let value = match args.get(name) {
        Some(v) => v,
        None => {
            return patterns;
        },
    };
    let items = match value.as_array() {
        Some(items) => items,
        None => {
            return patterns;
        },
    };
    let ghost all = items_view(items@);
    let mut i: usize = 0;
    proof {
        assert(all.take(0) =~= Seq::empty());
    }
    while i < items.len()
        invariant
            i <= items@.len(),
            all == items_view(items@),
            strings_view(patterns@) == texts_in(all.take(i as int)),
        decreases items@.len() - i,
    {
        proof {
            assert(all.take(i + 1).drop_last() =~= all.take(i as int));
        }
        match items[i].as_str() {
            Some(t) => {
                let ghost before = patterns@;
                patterns.push(t.to_owned());
                proof {
                    assert(strings_view(patterns@) =~= strings_view(before).push(t@));
                }
            },
            None => {},
        }
        i = i + 1;
    }
    proof {
        assert(all.take(i as int) =~= all);
    }
    patterns
}

/// How deep an index request asks to analyse: not deep, unless it says so.
pub open spec fn analysis_of(args: JsonView) -> Seq<char> {
    match args.text_field("analysis"@) {
        Some(a) => a,
        None => "manifest"@,
    }
}

/// Reads an index request.
pub fn read_index_request(args: &Json) -> (request: IndexRequest)
    ensures
        request.analysis@ == analysis_of(args@),
        request.force_reindex == flag_of(args@, "force_reindex"@, false),
        request.background == flag_of(args@, "background"@, false),
        request.auto_background == flag_of(args@, "_auto_background"@, false),
        strings_view(request.only@) == patterns_of(args@, "include"@),
        strings_view(request.except@) == patterns_of(args@, "exclude"@),
{
    IndexRequest {
        analysis: match args.get_str("analysis") {
            Some(a) => a.to_owned(),
            None => "manifest".to_owned(),
        },
        force_reindex: flag_arg(args, "force_reindex", false),
        background: flag_arg(args, "background", false),
        auto_background: flag_arg(args, "_auto_background", false),
        only: read_patterns(args, "include"),
        except: read_patterns(args, "exclude"),
    }
}

/// What a request is told that holds too many patterns.
pub open spec fn too_many_patterns(which: Seq<char>, count: nat) -> Seq<char> {
    which + " patterns ("@ + decimal(count) + ") exceed maximum of "@ + decimal(
        MAX_INDEX_PATTERNS as nat,
    )
}

/// Why an index request is refused.
pub open spec fn index_refusal(only: nat, except: nat) -> Option<Seq<char>> {
    if except > MAX_INDEX_PATTERNS {
        Some(too_many_patterns("exclude"@, except))
    } else if only > MAX_INDEX_PATTERNS {
        Some(too_many_patterns("include"@, only))
    } else {
        None
    }
}

fn pattern_error(which: &str, count: usize) -> (message: String)
    ensures
        message@ == too_many_patterns(which@, count as nat),
{
    let mut message = which.to_owned();
    message.append(" patterns (");
    push_decimal(&mut message, count as u64);
    message.append(") exceed maximum of ");
    push_decimal(&mut message, MAX_INDEX_PATTERNS as u64);
    message
}

impl IndexRequest {
    /// Checks how many patterns the request holds.
    pub fn check(&self) -> (checked: Result<(), String>)
        ensures
            match checked {
                Ok(_) => index_refusal(self.only@.len(), self.except@.len()) is None,
                Err(e) => index_refusal(self.only@.len(), self.except@.len()) == Some(e@),
            },
    {
        if self.except.len() > MAX_INDEX_PATTERNS {
            Err(pattern_error("exclude", self.except.len()))
        } else if self.only.len() > MAX_INDEX_PATTERNS {
            Err(pattern_error("include", self.only.len()))
        } else {
            Ok(())
        }
    }
}

/// What came of indexing.
pub struct IndexResult {
    pub ok: bool,
    pub files_discovered: usize,
    pub files_indexed: usize,
    pub files_failed: usize,
    pub symbols_found: usize,
    pub references_resolved: usize,
    pub errors: Vec<String>,
    pub duration_ms: u64,
    /// What is said of projects that take long.
    pub warning: Option<String>,
}

/// What the index pipeline counts.
#[derive(Clone, Copy, Debug, PartialEq, Eq, Structural)]
pub struct IndexStats {
    pub discovered: usize,
    pub indexed: usize,
    pub failed: usize,
    pub symbols: usize,
    pub resolved: usize,
}

/// The fields of a result.
pub open spec fn index_fields(result: IndexResult) -> Map<Seq<char>, JsonView> {
    let base = no_fields().insert("ok"@, JsonView::Bool(result.ok)).insert(
        "files_discovered"@,
        JsonView::Unsigned(result.files_discovered as u64),
    ).insert("files_indexed"@, JsonView::Unsigned(result.files_indexed as u64)).insert(
        "files_failed"@,
        JsonView::Unsigned(result.files_failed as u64),
    ).insert("symbols_found"@, JsonView::Unsigned(result.symbols_found as u64)).insert(
        "references_resolved"@,
        JsonView::Unsigned(result.references_resolved as u64),
    ).insert("errors"@, text_array(strings_view(result.errors@))).insert(
        "duration_ms"@,
        JsonView::Unsigned(result.duration_ms),
    );
    match result.warning {
        Some(w) => base.insert("warning"@, JsonView::Str(w@)),
        None => base,
    }
}

impl IndexResult {
    /// Whether nothing is counted.
    pub open spec fn is_blank(self) -> bool {
        self.files_discovered == 0 && self.files_indexed == 0 && self.files_failed == 0
            && self.symbols_found == 0 && self.references_resolved == 0
    }

    /// Whether the response is an error: it is where indexing did not succeed.
    pub fn is_error(&self) -> (flag: bool)
        ensures
            flag == !self.ok,
    {
        !self.ok
    }

    /// Whether the counts are those of the pipeline.
    pub open spec fn counts(self, stats: IndexStats) -> bool {
        self.files_discovered == stats.discovered && self.files_indexed == stats.indexed
            && self.files_failed == stats.failed && self.symbols_found == stats.symbols
            && self.references_resolved == stats.resolved
    }

    /// The result as a response.
    pub fn to_json(&self) -> (json: Json)
        ensures
            json@ == JsonView::Object(index_fields(*self)),
    {
        let mut object = JsonObject::new();
        object.put("ok", Json::Bool(self.ok));
        object.put("files_discovered", Json::count(self.files_discovered));
        object.put("files_indexed", Json::count(self.files_indexed));
        object.put("files_failed", Json::count(self.files_failed));
        object.put("symbols_found", Json::count(self.symbols_found));
        object.put("references_resolved", Json::count(self.references_resolved));
        object.put("errors", texts_to_json(&self.errors));
        object.put("duration_ms", Json::Unsigned(self.duration_ms));
        match &self.warning {
            Some(w) => {
                object.put("warning", Json::text(w.as_str()));
            },
            None => {},
        }
        Json::Object(object)
    }
}

/// A result that holds an error and nothing else.
pub fn index_error_result(error: String) -> (result: IndexResult)
    ensures
        !result.ok,
        result.is_blank(),
        strings_view(result.errors@) == seq![error@],
        result.duration_ms == 0,
        result.warning is None,
{
    let mut errors: Vec<String> = Vec::new();
    errors.push(error);
    proof {
        assert(strings_view(errors@) =~= seq![error@]);
    }
    IndexResult {
        ok: false,
        files_discovered: 0,
        files_indexed: 0,
        files_failed: 0,
        symbols_found: 0,
        references_resolved: 0,
        errors,
        duration_ms: 0,
        warning: None,
    }
}

/// What is said when another process holds the lock.
pub open spec fn locked_message(error: Seq<char>) -> Seq<char> {
    "Cannot acquire exclusive lock (another atlas process may be indexing): "@ + error
}

/// What is said when another process holds the lock.
pub fn lock_failure(error: &str) -> (message: String)
    ensures
        message@ == locked_message(error@),
{
    let mut message =
        "Cannot acquire exclusive lock (another atlas process may be indexing): ".to_owned();
    message.append(error);
    message
}

/// What is said when the pipeline fails.
pub fn pipeline_failure(error: &str) -> (message: String)
    ensures
        message@ == "Index failed: "@ + error@,
{
    let mut message = "Index failed: ".to_owned();
    message.append(error);
    message
}

/// A warning with another added to it.
pub open spec fn with_warning(slot: Option<Seq<char>>, message: Seq<char>) -> Seq<char> {
    match slot {
        Some(existing) => if existing.len() > 0 {
            existing + " "@ + message
        } else {
            message
        },
        None => message,
    }
}

/// Adds a warning.
pub fn append_warning(slot: Option<String>, message: &str) -> (warning: Option<String>)
    ensures
        string_view(warning) == Some(with_warning(string_view(slot), message@)),
{
    match slot {
        Some(existing) => if existing.as_str().is_empty() {
            Some(message.to_owned())
        } else {
            let mut all = existing;
            all.append(" ");
            all.append(message);
            Some(all)
        },
        None => Some(message.to_owned()),
    }
}

/// What is said of an index run that took long, or of a large project.
pub open spec fn size_warning(duration_ms: u64, files: nat) -> Option<Seq<char>> {
    if duration_ms > SLOW_INDEX_MS {
        Some(
            "Indexing took over 30 seconds. For large projects, use background=true to run indexing asynchronously, then call wait_for_task with the returned task_id to block until completion."@,
        )
    } else if files > LARGE_PROJECT_FILES {
        Some(
            "Large project detected. Use background=true and wait_for_task if the client timeout budget is short."@,
        )
    } else {
        None
    }
}

/// The result of an index run that the client waits for.
pub fn finish_index(run: Result<IndexStats, String>, duration_ms: u64) -> (result: IndexResult)
    ensures
        result.ok == (run is Ok),
        result.duration_ms == duration_ms,
        match run {
            Ok(stats) => result.counts(stats) && result.errors@.len() == 0,
            Err(e) => result.is_blank() && strings_view(result.errors@) == seq![
                "Index failed: "@ + e@,
            ],
        },
        string_view(result.warning) == size_warning(
            duration_ms,
            result.files_discovered as nat,
        ),
{
    let mut errors: Vec<String> = Vec::new();
    let (ok, stats) = match run {
        Ok(stats) => (true, stats),
        Err(e) => {
            errors.push(pipeline_failure(e.as_str()));
            proof {
                assert(strings_view(errors@) =~= seq!["Index failed: "@ + e@]);
            }
            (
                false,
                IndexStats { discovered: 0, indexed: 0, failed: 0, symbols: 0, resolved: 0 },
            )
        },
    };
    let none: Option<String> = None;
    let warning = if duration_ms > SLOW_INDEX_MS {
        append_warning(
            none,
            "Indexing took over 30 seconds. For large projects, use background=true to run indexing asynchronously, then call wait_for_task with the returned task_id to block until completion.",
        )
    } else if stats.discovered > LARGE_PROJECT_FILES {
        append_warning(
            none,
            "Large project detected. Use background=true and wait_for_task if the client timeout budget is short.",
        )
    } else {
        none
    };
    IndexResult {
        ok,
        files_discovered: stats.discovered,
        files_indexed: stats.indexed,
        files_failed: stats.failed,
        symbols_found: stats.symbols,
        references_resolved: stats.resolved,
        errors,
        duration_ms,
        warning,
    }
}

/// The result of an index run in the background.
pub fn finish_background_index(stats: IndexStats, duration_ms: u64) -> (result: IndexResult)
    ensures
        result.ok,
        result.counts(stats),
        result.errors@.len() == 0,
        result.duration_ms == duration_ms,
        string_view(result.warning) == if duration_ms > SLOW_INDEX_MS {
            Some(
                "For very large projects, consider running 'atlas index' locally before connecting via MCP to avoid timeout issues."@,
            )
        } else {
            None
        },
{
    let none: Option<String> = None;
    let warning = if duration_ms > SLOW_INDEX_MS {
        append_warning(
            none,
            "For very large projects, consider running 'atlas index' locally before connecting via MCP to avoid timeout issues.",
        )
    } else {
        none
    };
    IndexResult {
        ok: true,
        files_discovered: stats.discovered,
        files_indexed: stats.indexed,
        files_failed: stats.failed,
        symbols_found: stats.symbols,
        references_resolved: stats.resolved,
        errors: Vec::new(),
        duration_ms,
        warning,
    }
}

/// The response to an index request in the background.
pub open spec fn background_fields(
    task_id: Seq<char>,
    progress: JsonView,
    auto_background: bool,
) -> Map<Seq<char>, JsonView> {
    no_fields().insert("background"@, JsonView::Bool(true)).insert(
        "task_id"@,
        JsonView::Str(task_id),
    ).insert("tool_name"@, JsonView::Str("index"@)).insert("method"@, JsonView::Str("index"@)).insert(
        "status"@,
        JsonView::Str("running"@),
    ).insert("progress"@, progress).insert("progress_message"@, JsonView::Str("queued"@)).insert(
        "auto_background"@,
        JsonView::Bool(auto_background),
    ).insert(
        "note"@,
        JsonView::Str(
            "Index is running in background. Poll task_status for progress percentages; use wait_for_task only when the client can safely block."@,
        ),
    )
}

/// The response to an index request in the background, where no progress has been
/// made yet.
pub fn background_body(task_id: &str, no_progress: Json, auto_background: bool) -> (body: Json)
    ensures
        body@ == JsonView::Object(background_fields(task_id@, no_progress@, auto_background)),
{
    let mut object = JsonObject::new();
    object.put("background", Json::Bool(true));
    object.put("task_id", Json::text(task_id));
    object.put("tool_name", Json::text("index"));
    object.put("method", Json::text("index"));
    object.put("status", Json::text("running"));
    object.put("progress", no_progress);
    object.put("progress_message", Json::text("queued"));
    object.put("auto_background", Json::Bool(auto_background));
    object.put(
        "note",
        Json::text(
            "Index is running in background. Poll task_status for progress percentages; use wait_for_task only when the client can safely block.",
        ),
    );
    Json::Object(object)
}

/// What the index pipeline reports.
pub enum IndexEvent {
    PhaseStarted { phase: String },
    ItemProgress { phase: String, completed: u64 },
    PhaseFinished { phase: String, succeeded: u64, detail: Option<String> },
    Warning,
    Cancelled,
}

/// What a client is told of an event: a share of the work in percent, and a text.
pub open spec fn report_of(event: IndexEvent) -> Option<(u64, Seq<char>)> {
    match event {
        IndexEvent::PhaseStarted { phase } => Some((0, phase@ + "..."@)),
        IndexEvent::ItemProgress { phase, completed } => Some(
            (50, phase@ + ": "@ + decimal(completed as nat) + " items"@),
        ),
        IndexEvent::PhaseFinished { phase, succeeded, detail } => Some(
            (
                100,
                match detail {
                    Some(d) => d@,
                    None => phase@ + " done: "@ + decimal(succeeded as nat),
                },
            ),
        ),
        IndexEvent::Warning => None,
        IndexEvent::Cancelled => None,
    }
}

/// What a client is told of an event.
pub fn progress_report(event: &IndexEvent) -> (report: Option<(u64, String)>)
    ensures
        match report {
            Some((percent, text)) => report_of(*event) == Some((percent, text@)),
            None => report_of(*event) is None,
        },
{
    match event {
        IndexEvent::PhaseStarted { phase } => {
            let mut text = phase.clone();
            text.append("...");
            Some((0, text))
        },
        IndexEvent::ItemProgress { phase, completed } => {
            let mut text = phase.clone();
            text.append(": ");
            push_decimal(&mut text, *completed);
            text.append(" items");
            Some((50, text))
        },
        IndexEvent::PhaseFinished { phase, succeeded, detail } => match detail {
            Some(d) => Some((100, d.clone())),
            None => {
                let mut text = phase.clone();
                text.append(" done: ");
                push_decimal(&mut text, *succeeded);
                Some((100, text))
            },
        },
        IndexEvent::Warning => None,
        IndexEvent::Cancelled => None,
    }
}

/// Adding a warning keeps those that are there.
pub proof fn law_warnings_are_kept(slot: Option<Seq<char>>, message: Seq<char>)
    ensures
        slot matches Some(existing) ==> existing.is_prefix_of(with_warning(slot, message)),
{
    match slot {
        Some(existing) => {
            assert(with_warning(slot, message).subrange(0, existing.len() as int) =~= existing);
        },
        None => {},
    }
}

/// A request is refused only for too many patterns.
pub proof fn law_few_patterns_are_accepted(only: nat, except: nat)
    ensures
        index_refusal(only, except) is None <==> only <= MAX_INDEX_PATTERNS && except
            <= MAX_INDEX_PATTERNS,
{
}

/// The patterns of an argument are the texts of the array, in order; what is no text is
/// passed over.
pub proof fn law_patterns_are_the_texts(items: Seq<JsonView>)
    ensures
        ({
            let texts = items.filter(|item: JsonView| item is Str);
            &&& texts_in(items).len() == texts.len()
            &&& forall|i: int|
                0 <= i < texts.len() ==> #[trigger] texts[i] == JsonView::Str(texts_in(items)[i])
        }),
    decreases items.len(),
{
    reveal(Seq::filter);
    if items.len() > 0 {
        law_patterns_are_the_texts(items.drop_last());
        let before = items.drop_last().filter(|item: JsonView| item is Str);
        let texts = items.filter(|item: JsonView| item is Str);
        assert forall|i: int| 0 <= i < texts.len() implies #[trigger] texts[i] == JsonView::Str(
            texts_in(items)[i],
        ) by {
            if i < before.len() {
                assert(texts[i] == before[i]);
            }
        }
    }
}

proof fn lemma_index_names_differ()
    ensures
        "ok"@ != "files_discovered"@,
        "ok"@ != "files_indexed"@,
        "ok"@ != "files_failed"@,
        "ok"@ != "symbols_found"@,
        "ok"@ != "references_resolved"@,
        "ok"@ != "errors"@,
        "ok"@ != "duration_ms"@,
        "ok"@ != "warning"@,
        "files_discovered"@ != "files_indexed"@,
        "files_discovered"@ != "files_failed"@,
        "files_discovered"@ != "symbols_found"@,
        "files_discovered"@ != "references_resolved"@,
        "files_discovered"@ != "errors"@,
        "files_discovered"@ != "duration_ms"@,
        "files_discovered"@ != "warning"@,
        "files_indexed"@ != "files_failed"@,
        "files_indexed"@ != "symbols_found"@,
        "files_indexed"@ != "references_resolved"@,
        "files_indexed"@ != "errors"@,
        "files_indexed"@ != "duration_ms"@,
        "files_indexed"@ != "warning"@,
        "files_failed"@ != "symbols_found"@,
        "files_failed"@ != "references_resolved"@,
        "files_failed"@ != "errors"@,
        "files_failed"@ != "duration_ms"@,
        "files_failed"@ != "warning"@,
        "symbols_found"@ != "references_resolved"@,
        "symbols_found"@ != "errors"@,
        "symbols_found"@ != "duration_ms"@,
        "symbols_found"@ != "warning"@,
        "references_resolved"@ != "errors"@,
        "references_resolved"@ != "duration_ms"@,
        "references_resolved"@ != "warning"@,
        "errors"@ != "duration_ms"@,
        "errors"@ != "warning"@,
        "duration_ms"@ != "warning"@,
{
    reveal_strlit("ok");
    reveal_strlit("files_discovered");
    reveal_strlit("files_indexed");
    reveal_strlit("files_failed");
    reveal_strlit("symbols_found");
    reveal_strlit("references_resolved");
    reveal_strlit("errors");
    reveal_strlit("duration_ms");
    reveal_strlit("warning");
    assert("ok"@.len() != "files_discovered"@.len());
    assert("ok"@.len() != "files_indexed"@.len());
    assert("ok"@.len() != "files_failed"@.len());
    assert("ok"@.len() != "symbols_found"@.len());
    assert("ok"@.len() != "references_resolved"@.len());
    assert("ok"@.len() != "errors"@.len());
    assert("ok"@.len() != "duration_ms"@.len());
    assert("ok"@.len() != "warning"@.len());
    assert("files_discovered"@.len() != "files_indexed"@.len());
    assert("files_discovered"@.len() != "files_failed"@.len());
    assert("files_discovered"@.len() != "symbols_found"@.len());
    assert("files_discovered"@.len() != "references_resolved"@.len());
    assert("files_discovered"@.len() != "errors"@.len());
    assert("files_discovered"@.len() != "duration_ms"@.len());
    assert("files_discovered"@.len() != "warning"@.len());
    assert("files_indexed"@.len() != "files_failed"@.len());
    assert("files_indexed"@[0] != "symbols_found"@[0]);
    assert("files_indexed"@.len() != "references_resolved"@.len());
    assert("files_indexed"@.len() != "errors"@.len());
    assert("files_indexed"@.len() != "duration_ms"@.len());
    assert("files_indexed"@.len() != "warning"@.len());
    assert("files_failed"@.len() != "symbols_found"@.len());
    assert("files_failed"@.len() != "references_resolved"@.len());
    assert("files_failed"@.len() != "errors"@.len());
    assert("files_failed"@.len() != "duration_ms"@.len());
    assert("files_failed"@.len() != "warning"@.len());
    assert("symbols_found"@.len() != "references_resolved"@.len());
    assert("symbols_found"@.len() != "errors"@.len());
    assert("symbols_found"@.len() != "duration_ms"@.len());
    assert("symbols_found"@.len() != "warning"@.len());
    assert("references_resolved"@.len() != "errors"@.len());
    assert("references_resolved"@.len() != "duration_ms"@.len());
    assert("references_resolved"@.len() != "warning"@.len());
    assert("errors"@.len() != "duration_ms"@.len());
    assert("errors"@.len() != "warning"@.len());
    assert("duration_ms"@.len() != "warning"@.len());
}

/// What came of indexing is told, each count under its own name.
pub proof fn law_index_result_is_told(result: IndexResult)
    ensures
        ({
            let body = JsonView::Object(index_fields(result));
            &&& body.bool_field("ok"@) == Some(result.ok)
            &&& body.unsigned_field("files_discovered"@) == Some(result.files_discovered as u64)
            &&& body.unsigned_field("files_indexed"@) == Some(result.files_indexed as u64)
            &&& body.unsigned_field("files_failed"@) == Some(result.files_failed as u64)
            &&& body.unsigned_field("symbols_found"@) == Some(result.symbols_found as u64)
            &&& body.unsigned_field("references_resolved"@) == Some(
                result.references_resolved as u64,
            )
            &&& body.unsigned_field("duration_ms"@) == Some(result.duration_ms)
            &&& body.text_field("warning"@) == string_view(result.warning)
            &&& body.field("errors"@) matches Some(JsonView::Array(listed)) && listed.len()
                == result.errors@.len() && forall|i: int|
                0 <= i < listed.len() ==> #[trigger] listed[i] == JsonView::Str(result.errors@[i]@)
        }),
{
    lemma_index_names_differ();
}

/// Which task runs in the background is told, and whether that was asked for.
pub proof fn law_background_task_is_told(
    task_id: Seq<char>,
    progress: JsonView,
    auto_background: bool,
)
    ensures
        ({
            let body = JsonView::Object(background_fields(task_id, progress, auto_background));
            &&& body.bool_field("background"@) == Some(true)
            &&& body.text_field("task_id"@) == Some(task_id)
            &&& body.text_field("status"@) == Some("running"@)
            &&& body.field("progress"@) == Some(progress)
            &&& body.bool_field("auto_background"@) == Some(auto_background)
        }),
{
    reveal_strlit("background");
    reveal_strlit("task_id");
    reveal_strlit("tool_name");
    reveal_strlit("method");
    reveal_strlit("status");
    reveal_strlit("progress");
    reveal_strlit("progress_message");
    reveal_strlit("auto_background");
    reveal_strlit("note");
    assert("background"@.len() != "task_id"@.len());
    assert("background"@.len() != "tool_name"@.len());
    assert("background"@.len() != "method"@.len());
    assert("background"@.len() != "status"@.len());
    assert("background"@.len() != "progress"@.len());
    assert("background"@.len() != "progress_message"@.len());
    assert("background"@.len() != "auto_background"@.len());
    assert("background"@.len() != "note"@.len());
    assert("task_id"@.len() != "tool_name"@.len());
    assert("task_id"@.len() != "method"@.len());
    assert("task_id"@.len() != "status"@.len());
    assert("task_id"@.len() != "progress"@.len());
    assert("task_id"@.len() != "progress_message"@.len());
    assert("task_id"@.len() != "auto_background"@.len());
    assert("task_id"@.len() != "note"@.len());
    assert("status"@.len() != "progress"@.len());
    assert("status"@.len() != "progress_message"@.len());
    assert("status"@.len() != "auto_background"@.len());
    assert("status"@.len() != "note"@.len());
    assert("progress"@.len() != "progress_message"@.len());
    assert("progress"@.len() != "auto_background"@.len());
    assert("progress"@.len() != "note"@.len());
    assert("auto_background"@.len() != "note"@.len());
}

/// A phase reports a share that grows from nothing to all, with a text that names the phase
/// unless it has a text of its own; what is no progress is not reported.
pub proof fn law_progress_grows(
    phase: String,
    completed: u64,
    succeeded: u64,
    detail: Option<String>,
)
    ensures
        report_of((IndexEvent::PhaseStarted { phase })) matches Some((started, first))
            && report_of((IndexEvent::ItemProgress { phase, completed })) matches Some(
            (under_way, second),
        ) && report_of((IndexEvent::PhaseFinished { phase, succeeded, detail })) matches Some(
            (finished, third),
        ) && started == 0 && started < under_way < finished && finished == 100
            && phase@.is_prefix_of(first) && phase@.is_prefix_of(second) && (if detail is Some {
            third == detail->0@
        } else {
            phase@.is_prefix_of(third)
        }),
        report_of(IndexEvent::Warning) is None,
        report_of(IndexEvent::Cancelled) is None,
{
    let first = phase@ + "..."@;
    let second = phase@ + ": "@ + decimal(completed as nat) + " items"@;
    let third = phase@ + " done: "@ + decimal(succeeded as nat);
    assert(first.subrange(0, phase@.len() as int) =~= phase@);
    assert(second.subrange(0, phase@.len() as int) =~= phase@);
    assert(third.subrange(0, phase@.len() as int) =~= phase@);
}

/// Nothing is lost of a warning that is added either, and nothing is said of a run that is
/// neither slow nor large.
pub proof fn law_added_warning_is_told(
    slot: Option<Seq<char>>,
    message: Seq<char>,
    duration_ms: u64,
    files: nat,
)
    ensures
        message.is_suffix_of(with_warning(slot, message)),
        size_warning(duration_ms, files) is None <==> duration_ms <= SLOW_INDEX_MS && files
            <= LARGE_PROJECT_FILES,
{
    let all = with_warning(slot, message);
    assert(all.subrange(all.len() - message.len(), all.len() as int) =~= message);
}

/// The patterns of an argument are those of its array, and there are none where it is no
/// array.
pub proof fn law_patterns_are_read_from_arrays(
    args: JsonView,
    name: Seq<char>,
    items: Seq<JsonView>,
)
    ensures
        args.field(name) == Some(JsonView::Array(items)) ==> patterns_of(args, name) == texts_in(
            items,
        ),
        !(args.field(name) matches Some(JsonView::Array(_))) ==> patterns_of(args, name).len() == 0,
        args.text_field("analysis"@) matches Some(given) ==> analysis_of(args) == given,
        args.text_field("analysis"@) is None ==> analysis_of(args) == "manifest"@,
{
}

/// Too many patterns are told with their number.
pub proof fn law_too_many_patterns_are_told(only: nat, except: nat)
    ensures
        except > MAX_INDEX_PATTERNS ==> (index_refusal(only, except) matches Some(message)
            && crate::text::holds_text(message, "exclude patterns ("@ + decimal(except) + ")"@)),
        except <= MAX_INDEX_PATTERNS && only > MAX_INDEX_PATTERNS ==> (index_refusal(
            only,
            except,
        ) matches Some(message) && crate::text::holds_text(
            message,
            "include patterns ("@ + decimal(only) + ")"@,
        )),
{
    reveal_strlit(" patterns (");
    reveal_strlit("exclude");
    reveal_strlit("include");
    reveal_strlit("exclude patterns (");
    reveal_strlit("include patterns (");
    reveal_strlit(") exceed maximum of ");
    reveal_strlit(" exceed maximum of ");
    reveal_strlit(")");
    assert("exclude patterns ("@ =~= "exclude"@ + " patterns ("@);
    assert("include patterns ("@ =~= "include"@ + " patterns ("@);
    assert(") exceed maximum of "@ =~= ")"@ + " exceed maximum of "@);
    let end = " exceed maximum of "@ + decimal(MAX_INDEX_PATTERNS as nat);
    let first = "exclude patterns ("@ + decimal(except) + ")"@;
    let second = "include patterns ("@ + decimal(only) + ")"@;
    crate::text::law_text_holds_its_parts(Seq::empty(), first, end);
    crate::text::law_text_holds_its_parts(Seq::empty(), second, end);
    assert(too_many_patterns("exclude"@, except) =~= Seq::<char>::empty() + first + end);
    assert(too_many_patterns("include"@, only) =~= Seq::<char>::empty() + second + end);
}

/// A run that succeeded is told with the numbers of the pipeline, and one that did not with
/// none.
pub proof fn law_numbers_are_those_of_the_pipeline(result: IndexResult, stats: IndexStats)
    ensures
        result.counts(stats) ==> ({
            let body = JsonView::Object(index_fields(result));
            &&& body.unsigned_field("files_discovered"@) == Some(stats.discovered as u64)
            &&& body.unsigned_field("files_indexed"@) == Some(stats.indexed as u64)
            &&& body.unsigned_field("files_failed"@) == Some(stats.failed as u64)
            &&& body.unsigned_field("symbols_found"@) == Some(stats.symbols as u64)
            &&& body.unsigned_field("references_resolved"@) == Some(stats.resolved as u64)
        }),
        result.is_blank() ==> result.counts(
            IndexStats { discovered: 0, indexed: 0, failed: 0, symbols: 0, resolved: 0 },
        ),
{
    law_index_result_is_told(result);
}

/// The first warning stands alone, and another is parted from it by a space.
pub proof fn law_warnings_are_parted(slot: Seq<char>, message: Seq<char>)
    ensures
        with_warning(None, message) == message,
        with_warning(Some(Seq::empty()), message) == message,
        slot.len() > 0 ==> with_warning(Some(slot), message) == crate::text::joined(
            seq![slot, message],
            " "@,
        ),
{
    assert(seq![slot, message].drop_last() =~= seq![slot]);
    reveal_with_fuel(crate::text::joined, 2);
}

} // verus!
