//! The envelope that tool responses share: warnings, the identifier of the
//! query, how far the analysis reaches, and the snapshot under which the query
//! can be resumed.

use vstd::prelude::*;
use vstd::string::*;

use crate::json::{items_view, no_fields, Json, JsonObject, JsonView};
use crate::json_text::{exact, json_parsed, json_pretty_text, json_to_string_pretty};
use crate::protocol::{text_array, texts_to_json};
use crate::query_task::{retry_of, RetryView};
use crate::text::{append_texts, decimal, push_decimal, strings_view, trimmed};

verus! {

/// How many files have been analysed, and how far.
#[derive(Clone, Copy, Debug, PartialEq, Eq, Structural)]
pub struct CapabilityStats {
    pub files_with_dataflow: usize,
    pub files_structural_only: usize,
    pub files_manifest_only: usize,
    pub files_with_cfg: usize,
}

/// The size of the index of a project.
pub struct ProjectStats {
    /// How deep the index is: `manifest`, `structural` or `full`.
    pub index_mode: Option<String>,
    pub total_files: usize,
    pub total_symbols: usize,
    pub total_edges: usize,
}

/// Something that the analysis lacks, and why.
pub struct GapRecord {
    /// What the gap is in: a function or a file.
    pub scope: String,
    /// Why there is a gap, for programs.
    pub reason: String,
    /// Why there is a gap, for people.
    pub detail: String,
}

/// What a gap is reported as.
pub open spec fn gap_view(gap: GapRecord) -> JsonView {
    JsonView::Object(
        no_fields().insert("scope"@, JsonView::Str(gap.scope@)).insert(
            "reason"@,
            JsonView::Str(gap.reason@),
        ).insert("detail"@, JsonView::Str(gap.detail@)),
    )
}

/// What a list of gaps is reported as.
pub open spec fn gaps_view(gaps: Seq<GapRecord>) -> JsonView {
    JsonView::Array(Seq::new(gaps.len(), |i: int| gap_view(gaps[i])))
}

/// Whether a stored query has its final result.
#[derive(Clone, Copy, Debug, PartialEq, Eq, Structural)]
pub enum QueryStatus {
    Ready,
    Retryable,
}

/// A query that can be resumed. `F` is the state of the focus analysis.
pub struct QuerySnapshot<F> {
    pub query_id: String,
    pub tool_name: String,
    pub tool_args: Json,
    pub focus_result: Option<F>,
    pub created_at: u64,
    pub status: QueryStatus,
}

/// The envelope of a response.
pub struct AnalysisEnvelope<F> {
    pub query_id: String,
    pub tool_name: String,
    pub tool_args: Json,
    pub root_warnings: Vec<String>,
    pub lazy_warnings: Vec<String>,
    pub is_error_override: Option<bool>,
    /// How many results there are of each coverage.
    pub coverage_counts: Option<Vec<(String, usize)>>,
    pub analysis_scope: Option<String>,
    pub analysis_summary: Option<String>,
    /// The facts that the response rests on.
    pub analysis_basis: Option<Vec<String>>,
    /// After how long the query should be retried.
    pub analysis_retry_after_ms: Option<u64>,
    pub gap_records: Option<Vec<GapRecord>>,
    pub focus_result: Option<F>,
    pub capability_stats: Option<CapabilityStats>,
    pub project_stats: Option<ProjectStats>,
}

/// The response to a tool call, and the query to be stored.
pub struct BuiltResponse<F> {
    pub text: String,
    pub is_error: bool,
    pub snapshot: QuerySnapshot<F>,
}

/// The text, or nothing where there is none.
pub open spec fn text_or_empty(text: Option<String>) -> Seq<char> {
    match text {
        Some(s) => s@,
        None => Seq::empty(),
    }
}

/// The counts as response fields; of two with one name, the later counts.
pub open spec fn counts_fields(counts: Seq<(String, usize)>) -> Map<Seq<char>, JsonView>
    decreases counts.len(),
{
    if counts.len() == 0 {
        no_fields()
    } else {
        counts_fields(counts.drop_last()).insert(
            counts.last().0@,
            JsonView::Unsigned(counts.last().1 as u64),
        )
    }
}

/// The summary of an index.
pub open spec fn index_summary(
    project: Option<ProjectStats>,
    capability: Option<CapabilityStats>,
) -> Seq<char> {
    let mode = match project {
        Some(p) => match p.index_mode {
            Some(m) => m@,
            None => "unknown"@,
        },
        None => "unknown"@,
    };
    let (files, symbols, edges) = match project {
        Some(p) => (p.total_files as nat, p.total_symbols as nat, p.total_edges as nat),
        None => (0, 0, 0),
    };
    let (dataflow, structural, manifest) = match capability {
        Some(c) => (
            c.files_with_dataflow as nat,
            c.files_structural_only as nat,
            c.files_manifest_only as nat,
        ),
        None => (0, 0, 0),
    };
    "Indexed ("@ + mode + "): "@ + decimal(files) + " files ("@ + decimal(dataflow) + " dataflow, "@
        + decimal(structural) + " structural, "@ + decimal(manifest) + " manifest), "@ + decimal(
        symbols,
    ) + " symbols, "@ + decimal(edges) + " edges"@
}

impl<F> AnalysisEnvelope<F> {
    /// All warnings: those about the request, then those about the analysis.
    pub open spec fn warnings(self) -> Seq<Seq<char>> {
        strings_view(self.root_warnings@) + strings_view(self.lazy_warnings@)
    }

    /// Whether the reach of the analysis has been set.
    pub open spec fn has_focus_analysis(self) -> bool {
        self.analysis_scope is Some || self.analysis_summary is Some
    }

    /// How far the analysis reaches, where that is known.
    pub open spec fn analysis(self) -> Option<JsonView> {
        if self.has_focus_analysis() {
            let base = no_fields().insert(
                "scope"@,
                JsonView::Str(text_or_empty(self.analysis_scope)),
            ).insert("summary"@, JsonView::Str(text_or_empty(self.analysis_summary)));
            let with_basis = match self.analysis_basis {
                Some(basis) => base.insert("basis"@, text_array(strings_view(basis@))),
                None => base,
            };
            Some(
                JsonView::Object(
                    match self.analysis_retry_after_ms {
                        Some(delay) => with_basis.insert(
                            "retry_after_ms"@,
                            JsonView::Unsigned(delay),
                        ),
                        None => with_basis,
                    },
                ),
            )
        } else if self.project_stats is Some || self.capability_stats is Some {
            Some(
                JsonView::Object(
                    no_fields().insert("scope"@, JsonView::Str("repo"@)).insert(
                        "summary"@,
                        JsonView::Str(index_summary(self.project_stats, self.capability_stats)),
                    ),
                ),
            )
        } else {
            None
        }
    }

    /// Whether there are gaps to report. Gaps are final: while a retry can still
    /// change the result, none is reported.
    pub open spec fn reports_gaps(self) -> bool {
        self.analysis_retry_after_ms is None && (self.gap_records matches Some(gaps) && gaps@.len()
            > 0)
    }

    /// The response fields, with those of the envelope.
    pub open spec fn enveloped(self, body: Map<Seq<char>, JsonView>) -> Map<Seq<char>, JsonView> {
        let warned = if self.warnings().len() > 0 {
            body.insert("warnings"@, text_array(self.warnings()))
        } else {
            body
        };
        let identified = warned.insert("query_id"@, JsonView::Str(self.query_id@));
        let analysed = match self.analysis() {
            Some(analysis) => identified.insert("analysis"@, analysis),
            None => identified,
        };
        let counted = match self.coverage_counts {
            Some(counts) => analysed.insert(
                "coverage_counts"@,
                JsonView::Object(counts_fields(counts@)),
            ),
            None => analysed,
        };
        if self.reports_gaps() {
            counted.insert("gaps"@, gaps_view(self.gap_records->Some_0@))
        } else {
            counted
        }
    }

    /// Whether a response with the given fields is an error: where nothing else
    /// was said, it is one if `ok` is false or there is an `error`.
    pub open spec fn is_error(self, fields: Map<Seq<char>, JsonView>) -> bool {
        match self.is_error_override {
            Some(e) => e,
            None => match JsonView::Object(fields).bool_field("ok"@) {
                Some(ok) => !ok,
                None => fields.contains_key("error"@),
            },
        }
    }

    /// Whether the query will have to be retried.
    pub open spec fn status(self) -> QueryStatus {
        if self.analysis_retry_after_ms is Some {
            QueryStatus::Retryable
        } else {
            QueryStatus::Ready
        }
    }

    /// An envelope for a query with the given identifier, without anything in it.
    pub fn new(query_id: String, tool_name: &str, tool_args: &Json) -> (envelope: Self)
        ensures
            envelope.query_id == query_id,
            envelope.tool_name@ == tool_name@,
            envelope.tool_args@ == tool_args@,
            envelope.root_warnings@.len() == 0,
            envelope.lazy_warnings@.len() == 0,
            envelope.is_error_override is None,
            envelope.coverage_counts is None,
            envelope.analysis_scope is None,
            envelope.analysis_summary is None,
            envelope.analysis_basis is None,
            envelope.analysis_retry_after_ms is None,
            envelope.gap_records is None,
            envelope.focus_result is None,
            envelope.capability_stats is None,
            envelope.project_stats is None,
    {
        AnalysisEnvelope {
            query_id,
            tool_name: tool_name.to_owned(),
            tool_args: tool_args.clone(),
            root_warnings: Vec::new(),
            lazy_warnings: Vec::new(),
            is_error_override: None,
            coverage_counts: None,
            analysis_scope: None,
            analysis_summary: None,
            analysis_basis: None,
            analysis_retry_after_ms: None,
            gap_records: None,
            focus_result: None,
            capability_stats: None,
            project_stats: None,
        }
    }

    /// The identifier of the query.
    pub fn query_id(&self) -> (id: &str)
        ensures
            id@ == self.query_id@,
    {
        self.query_id.as_str()
    }

    /// Sets the warnings about the request.
    pub fn with_root_warnings(self, warnings: Vec<String>) -> (envelope: Self)
        ensures
            envelope == (AnalysisEnvelope { root_warnings: warnings, ..self }),
    {
        AnalysisEnvelope { root_warnings: warnings, ..self }
    }

    /// Sets the warnings about the analysis.
    pub fn with_lazy_warnings(self, warnings: Vec<String>) -> (envelope: Self)
        ensures
            envelope == (AnalysisEnvelope { lazy_warnings: warnings, ..self }),
    {
        AnalysisEnvelope { lazy_warnings: warnings, ..self }
    }

    /// Says whether the response is an error.
    pub fn with_is_error(self, is_error: bool) -> (envelope: Self)
        ensures
            envelope == (AnalysisEnvelope { is_error_override: Some(is_error), ..self }),
    {
        AnalysisEnvelope { is_error_override: Some(is_error), ..self }
    }

    /// Sets how many results there are of each coverage.
    pub fn with_coverage_counts(self, counts: Vec<(String, usize)>) -> (envelope: Self)
        ensures
            envelope == (AnalysisEnvelope { coverage_counts: Some(counts), ..self }),
    {
        AnalysisEnvelope { coverage_counts: Some(counts), ..self }
    }

    /// Sets what the analysis covers.
    pub fn with_analysis_scope(self, scope: String) -> (envelope: Self)
        ensures
            envelope == (AnalysisEnvelope { analysis_scope: Some(scope), ..self }),
    {
        AnalysisEnvelope { analysis_scope: Some(scope), ..self }
    }

    /// Sets the summary of the analysis.
    pub fn with_analysis_summary(self, summary: String) -> (envelope: Self)
        ensures
            envelope == (AnalysisEnvelope { analysis_summary: Some(summary), ..self }),
    {
        AnalysisEnvelope { analysis_summary: Some(summary), ..self }
    }

    /// Sets the facts that the response rests on.
    pub fn with_analysis_basis(self, basis: Vec<String>) -> (envelope: Self)
        ensures
            envelope == (AnalysisEnvelope { analysis_basis: Some(basis), ..self }),
    {
        AnalysisEnvelope { analysis_basis: Some(basis), ..self }
    }

    /// Sets after how long the query should be retried.
    pub fn with_analysis_retry_after_ms(self, retry_after_ms: u64) -> (envelope: Self)
        ensures
            envelope == (AnalysisEnvelope {
                analysis_retry_after_ms: Some(retry_after_ms),
                ..self
            }),
    {
        AnalysisEnvelope { analysis_retry_after_ms: Some(retry_after_ms), ..self }
    }

    /// Sets the state of the focus analysis.
    pub fn with_focus_result(self, result: F) -> (envelope: Self)
        ensures
            envelope == (AnalysisEnvelope { focus_result: Some(result), ..self }),
    {
        AnalysisEnvelope { focus_result: Some(result), ..self }
    }

    /// Sets the gaps.
    pub fn with_gap_records(self, gaps: Vec<GapRecord>) -> (envelope: Self)
        ensures
            envelope == (AnalysisEnvelope { gap_records: Some(gaps), ..self }),
    {
        AnalysisEnvelope { gap_records: Some(gaps), ..self }
    }

    /// Sets how far the files of the project have been analysed.
    pub fn with_capability_stats(self, stats: CapabilityStats) -> (envelope: Self)
        ensures
            envelope == (AnalysisEnvelope { capability_stats: Some(stats), ..self }),
    {
        AnalysisEnvelope { capability_stats: Some(stats), ..self }
    }

    /// Sets the size of the index of the project.
    pub fn with_project_stats(self, stats: ProjectStats) -> (envelope: Self)
        ensures
            envelope == (AnalysisEnvelope { project_stats: Some(stats), ..self }),
    {
        AnalysisEnvelope { project_stats: Some(stats), ..self }
    }
}

fn counts_to_json(counts: &Vec<(String, usize)>) -> (object: JsonObject)
    ensures
        object@ == counts_fields(counts@),
{
    let mut object = JsonObject::new();
    let mut i: usize = 0;
    proof {
        assert(counts@.take(0) =~= Seq::empty());
    }
    while i < counts.len()
        invariant
            i <= counts@.len(),
            object@ == counts_fields(counts@.take(i as int)),
        decreases counts@.len() - i,
    {
        object.put(counts[i].0.as_str(), Json::count(counts[i].1));
        proof {
            assert(counts@.take(i + 1).drop_last() =~= counts@.take(i as int));
        }
        i = i + 1;
    }
    proof {
        assert(counts@.take(i as int) =~= counts@);
    }
    object
}

fn gaps_to_json(gaps: &Vec<GapRecord>) -> (array: Json)
    ensures
        array@ == gaps_view(gaps@),
{
    let mut items: Vec<Json> = Vec::new();
    let mut i: usize = 0;
    while i < gaps.len()
        invariant
            i <= gaps@.len(),
            items@.len() == i,
            forall|j: int| 0 <= j < i ==> (#[trigger] items@[j])@ == gap_view(gaps@[j]),
        decreases gaps@.len() - i,
    {
        let mut object = JsonObject::new();
        object.put("scope", Json::text(gaps[i].scope.as_str()));
        object.put("reason", Json::text(gaps[i].reason.as_str()));
        object.put("detail", Json::text(gaps[i].detail.as_str()));
        items.push(Json::Object(object));
        i = i + 1;
    }
    proof {
        assert(items_view(items@) =~= Seq::new(gaps@.len(), |i: int| gap_view(gaps@[i])));
    }
    Json::Array(items)
}

fn write_index_summary(project: &Option<ProjectStats>, capability: &Option<CapabilityStats>) -> (text:
    String)
    ensures
        text@ == index_summary(*project, *capability),
{
    let mode = match project {
        Some(p) => match &p.index_mode {
            Some(m) => m.as_str(),
            None => "unknown",
        },
        None => "unknown",
    };
    let (files, symbols, edges): (u64, u64, u64) = match project {
        Some(p) => (p.total_files as u64, p.total_symbols as u64, p.total_edges as u64),
        None => (0, 0, 0),
    };
    let (dataflow, structural, manifest): (u64, u64, u64) = match capability {
        Some(c) => (
            c.files_with_dataflow as u64,
            c.files_structural_only as u64,
            c.files_manifest_only as u64,
        ),
        None => (0, 0, 0),
    };
    let mut text = "Indexed (".to_owned();
    text.append(mode);
    text.append("): ");
    push_decimal(&mut text, files);
    text.append(" files (");
    push_decimal(&mut text, dataflow);
    text.append(" dataflow, ");
    push_decimal(&mut text, structural);
    text.append(" structural, ");
    push_decimal(&mut text, manifest);
    text.append(" manifest), ");
    push_decimal(&mut text, symbols);
    text.append(" symbols, ");
    push_decimal(&mut text, edges);
    text.append(" edges");
    text
}

fn optional_text(text: &Option<String>) -> (json: Json)
    ensures
        json@ == JsonView::Str(text_or_empty(*text)),
{
    match text {
        Some(s) => Json::text(s.as_str()),
        None => Json::Str(String::new()),
    }
}

/// The fields of an object; nothing counts as an object without fields.
pub open spec fn body_fields(body: JsonView) -> Map<Seq<char>, JsonView> {
    match body {
        JsonView::Object(fields) => fields,
        _ => no_fields(),
    }
}

impl<F> AnalysisEnvelope<F> {
    fn write_analysis(&self) -> (analysis: Option<Json>)
        ensures
            crate::json::json_view(analysis) == self.analysis(),
    {
        if self.analysis_scope.is_some() || self.analysis_summary.is_some() {
            let mut analysis = JsonObject::new();
            analysis.put("scope", optional_text(&self.analysis_scope));
            analysis.put("summary", optional_text(&self.analysis_summary));
            match &self.analysis_basis {
                Some(basis) => {
                    analysis.put("basis", texts_to_json(basis));
                },
                None => {},
            }
            match self.analysis_retry_after_ms {
                Some(delay) => {
                    analysis.put("retry_after_ms", Json::Unsigned(delay));
                },
                None => {},
            }
            return Some(Json::Object(analysis));
        }
        if self.project_stats.is_some() || self.capability_stats.is_some() {
            let mut analysis = JsonObject::new();
            analysis.put("scope", Json::text("repo"));
            analysis.put(
                "summary",
                Json::Str(write_index_summary(&self.project_stats, &self.capability_stats)),
            );
            return Some(Json::Object(analysis));
        }
        None
    }

    fn write_fields(&self, body: JsonObject) -> (fields: JsonObject)
        ensures
            fields@ == self.enveloped(body@),
    {
        let mut fields = body;
        let mut warnings: Vec<String> = Vec::new();
        append_texts(&mut warnings, &self.root_warnings);
        append_texts(&mut warnings, &self.lazy_warnings);
        proof {
            let all = self.warnings();
            assert(strings_view(warnings@) =~= all);
            assert(all.len() == warnings@.len());
        }
        if warnings.len() > 0 {
            fields.put("warnings", texts_to_json(&warnings));
        }
        fields.put("query_id", Json::text(self.query_id.as_str()));
        match self.write_analysis() {
            Some(analysis) => {
                fields.put("analysis", analysis);
            },
            None => {},
        }
        match &self.coverage_counts {
            Some(counts) => {
                fields.put("coverage_counts", Json::Object(counts_to_json(counts)));
            },
            None => {},
        }
        if self.analysis_retry_after_ms.is_none() {
            match &self.gap_records {
                Some(gaps) => {
                    if gaps.len() > 0 {
                        fields.put("gaps", gaps_to_json(gaps));
                    }
                },
                None => {},
            }
        }
        fields
    }

    /// The response with the envelope around `body`, and the query to be stored
    /// with the given arguments. A body that is nothing counts as empty.
    pub fn build_with_args(self, body: Json, stored_args: &Json, now: u64) -> (built: BuiltResponse<
        F,
    >)
        requires
            body@ is Object || body@ is Null,
        ensures
            built.text@ == json_pretty_text(JsonView::Object(self.enveloped(body_fields(body@)))),
            exact(JsonView::Object(self.enveloped(body_fields(body@)))) ==> json_parsed(built.text@)
                == Some(JsonView::Object(self.enveloped(body_fields(body@)))),
            built.is_error == self.is_error(self.enveloped(body_fields(body@))),
            built.snapshot.query_id == self.query_id,
            built.snapshot.tool_name == self.tool_name,
            built.snapshot.tool_args@ == stored_args@,
            built.snapshot.focus_result == self.focus_result,
            built.snapshot.created_at == now,
            built.snapshot.status == self.status(),
    {
        let object = match body {
            Json::Object(object) => object,
            _ => JsonObject::new(),
        };
        let fields = self.write_fields(object);
        let status = if self.analysis_retry_after_ms.is_some() {
            QueryStatus::Retryable
        } else {
            QueryStatus::Ready
        };
        let response = Json::Object(fields);
        let is_error = match self.is_error_override {
            Some(e) => e,
            None => match response.get_bool("ok") {
                Some(ok) => !ok,
                None => response.get("error").is_some(),
            },
        };
        BuiltResponse {
            text: json_to_string_pretty(&response),
            is_error,
            snapshot: QuerySnapshot {
                query_id: self.query_id,
                tool_name: self.tool_name,
                tool_args: stored_args.clone(),
                focus_result: self.focus_result,
                created_at: now,
                status,
            },
        }
    }

    /// The response with the envelope around `body`, and the query to be stored.
    pub fn build(self, body: Json, now: u64) -> (built: BuiltResponse<F>)
        requires
            body@ is Object || body@ is Null,
        ensures
            built.text@ == json_pretty_text(JsonView::Object(self.enveloped(body_fields(body@)))),
            exact(JsonView::Object(self.enveloped(body_fields(body@)))) ==> json_parsed(built.text@)
                == Some(JsonView::Object(self.enveloped(body_fields(body@)))),
            built.is_error == self.is_error(self.enveloped(body_fields(body@))),
            built.snapshot.query_id == self.query_id,
            built.snapshot.tool_name == self.tool_name,
            built.snapshot.tool_args@ == self.tool_args@,
            built.snapshot.focus_result == self.focus_result,
            built.snapshot.created_at == now,
            built.snapshot.status == self.status(),
    {
        let args = self.tool_args.clone();
        self.build_with_args(body, &args, now)
    }
}

/// Whether a name is one of those that the envelope sets.
pub open spec fn is_envelope_field(name: Seq<char>) -> bool {
    name == "warnings"@ || name == "query_id"@ || name == "analysis"@ || name
        == "coverage_counts"@ || name == "gaps"@
}

proof fn lemma_envelope_fields_differ()
    ensures
        "warnings"@[0] == 'w',
        "query_id"@[0] == 'q',
        "analysis"@[0] == 'a',
        "coverage_counts"@[0] == 'c',
        "gaps"@[0] == 'g',
{
    reveal_strlit("warnings");
    reveal_strlit("query_id");
    reveal_strlit("analysis");
    reveal_strlit("coverage_counts");
    reveal_strlit("gaps");
}

/// The envelope leaves every other field of the response as it is.
pub proof fn law_envelope_keeps_the_body<F>(
    envelope: AnalysisEnvelope<F>,
    body: Map<Seq<char>, JsonView>,
    name: Seq<char>,
)
    requires
        !is_envelope_field(name),
    ensures
        JsonView::Object(envelope.enveloped(body)).field(name) == JsonView::Object(body).field(
            name,
        ),
{
}

/// Every response carries the identifier of its query.
pub proof fn law_response_is_identified<F>(
    envelope: AnalysisEnvelope<F>,
    body: Map<Seq<char>, JsonView>,
)
    ensures
        JsonView::Object(envelope.enveloped(body)).text_field("query_id"@) == Some(
            envelope.query_id@,
        ),
{
    lemma_envelope_fields_differ();
}

/// While a retry is pending no gap is reported: gaps are final.
pub proof fn law_no_gaps_before_the_end<F>(
    envelope: AnalysisEnvelope<F>,
    body: Map<Seq<char>, JsonView>,
)
    requires
        envelope.analysis_retry_after_ms is Some,
        !body.contains_key("gaps"@),
    ensures
        !envelope.enveloped(body).contains_key("gaps"@),
        envelope.status() is Retryable,
{
    lemma_envelope_fields_differ();
}

/// A response that gives a delay is one that asks to be retried, under the
/// identifier of its query.
pub proof fn law_retry_guidance_is_followed<F>(
    envelope: AnalysisEnvelope<F>,
    body: Map<Seq<char>, JsonView>,
    delay: u64,
)
    requires
        envelope.has_focus_analysis(),
        envelope.analysis_retry_after_ms == Some(delay),
        delay > 0,
        trimmed(envelope.query_id@).len() > 0,
    ensures
        retry_of(Some(JsonView::Object(envelope.enveloped(body)))) == Some(
            RetryView { query_id: trimmed(envelope.query_id@), retry_after_ms: delay },
        ),
{
    lemma_envelope_fields_differ();
    reveal_strlit("retry_after_ms");
}

/// A response whose reach is known and that gives no delay does not ask to be retried.
pub proof fn law_final_response_is_not_retried<F>(
    envelope: AnalysisEnvelope<F>,
    body: Map<Seq<char>, JsonView>,
)
    requires
        envelope.analysis() is Some,
        envelope.analysis_retry_after_ms is None,
    ensures
        retry_of(Some(JsonView::Object(envelope.enveloped(body)))) is None,
        envelope.status() is Ready,
{
    lemma_envelope_fields_differ();
    reveal_strlit("retry_after_ms");
    reveal_strlit("scope");
    reveal_strlit("summary");
    reveal_strlit("basis");
    assert("retry_after_ms"@[0] == 'r');
    assert("scope"@[0] == 's');
    assert("summary"@[0] == 's');
    assert("basis"@[0] == 'b');
    let fields = envelope.enveloped(body);
    assert(JsonView::Object(fields).field("analysis"@) == envelope.analysis());
    assert(envelope.analysis()->Some_0.unsigned_field("retry_after_ms"@) is None);
}

/// The warnings about the request come first, then those about the analysis, each in order
/// and none left out; without warnings there is no such field.
pub proof fn law_all_warnings_are_told<F>(
    envelope: AnalysisEnvelope<F>,
    body: Map<Seq<char>, JsonView>,
)
    requires
        !body.contains_key("warnings"@),
    ensures
        ({
            let root = envelope.root_warnings@;
            let lazy = envelope.lazy_warnings@;
            let told = JsonView::Object(envelope.enveloped(body)).field("warnings"@);
            if root.len() + lazy.len() == 0 {
                told is None
            } else {
                told matches Some(JsonView::Array(listed)) && listed.len() == root.len()
                    + lazy.len() && (forall|i: int|
                    0 <= i < root.len() ==> listed[i] == JsonView::Str((#[trigger] root[i])@)) && (
                forall|i: int|
                    0 <= i < lazy.len() ==> listed[root.len() + i] == JsonView::Str(
                        (#[trigger] lazy[i])@,
                    ))
            }
        }),
{
    lemma_envelope_fields_differ();
}

/// Every gap is reported, in order, once no retry is pending.
pub proof fn law_every_gap_is_reported<F>(
    envelope: AnalysisEnvelope<F>,
    body: Map<Seq<char>, JsonView>,
    gaps: Vec<GapRecord>,
)
    requires
        envelope.analysis_retry_after_ms is None,
        envelope.gap_records == Some(gaps),
        gaps@.len() > 0,
    ensures
        JsonView::Object(envelope.enveloped(body)).field("gaps"@) matches Some(
            JsonView::Array(listed),
        ) && listed.len() == gaps@.len() && forall|i: int|
            0 <= i < listed.len() ==> (#[trigger] listed[i]).text_field("scope"@) == Some(
                gaps@[i].scope@,
            ) && listed[i].text_field("reason"@) == Some(gaps@[i].reason@)
                && listed[i].text_field("detail"@) == Some(gaps@[i].detail@),
{
    lemma_envelope_fields_differ();
    reveal_strlit("scope");
    reveal_strlit("reason");
    reveal_strlit("detail");
    assert("scope"@.len() != "reason"@.len());
    assert("scope"@.len() != "detail"@.len());
    assert("reason"@[0] != "detail"@[0]);
    if let Some(JsonView::Array(listed)) = JsonView::Object(envelope.enveloped(body)).field(
        "gaps"@,
    ) {
        assert forall|i: int| 0 <= i < listed.len() implies (#[trigger] listed[i]).text_field(
            "scope"@,
        ) == Some(gaps@[i].scope@) && listed[i].text_field("reason"@) == Some(gaps@[i].reason@)
            && listed[i].text_field("detail"@) == Some(gaps@[i].detail@) by {
            assert(listed[i] == gap_view(gaps@[i]));
        }
    }
}

/// How many results there are of each coverage is told under the name of the coverage; of
/// two counts with one name, the later is.
pub proof fn law_coverage_is_counted(counts: Seq<(String, usize)>, at: int)
    requires
        0 <= at < counts.len(),
        forall|later: int| at < later < counts.len() ==> (#[trigger] counts[later]).0@
            != counts[at].0@,
    ensures
        JsonView::Object(counts_fields(counts)).unsigned_field(counts[at].0@) == Some(
            counts[at].1 as u64,
        ),
    decreases counts.len(),
{
    if at < counts.len() - 1 {
        let rest = counts.drop_last();
        assert forall|later: int| at < later < rest.len() implies (#[trigger] rest[later]).0@
            != rest[at].0@ by {
            assert(rest[later] == counts[later]);
        }
        law_coverage_is_counted(rest, at);
        assert(counts[counts.len() - 1].0@ != counts[at].0@);
    }
}

/// Only coverages that were counted are told.
pub proof fn law_only_counted_coverage_is_told(counts: Seq<(String, usize)>, name: Seq<char>)
    requires
        counts_fields(counts).contains_key(name),
    ensures
        exists|at: int| 0 <= at < counts.len() && (#[trigger] counts[at]).0@ == name,
    decreases counts.len(),
{
    if counts.len() > 0 {
        if counts.last().0@ == name {
            assert(counts[counts.len() - 1].0@ == name);
        } else {
            law_only_counted_coverage_is_told(counts.drop_last(), name);
            let at = choose|at: int|
                0 <= at < counts.drop_last().len() && (#[trigger] counts.drop_last()[at]).0@
                    == name;
            assert(counts[at].0@ == name);
        }
    }
}

/// How far an analysis reaches is told as it was set, with what it rests on and the delay.
pub proof fn law_reach_is_told<F>(envelope: AnalysisEnvelope<F>, body: Map<Seq<char>, JsonView>)
    requires
        envelope.analysis_scope is Some,
        envelope.analysis_summary is Some,
    ensures
        JsonView::Object(envelope.enveloped(body)).field("analysis"@) matches Some(told) && {
            &&& told.text_field("scope"@) == Some(envelope.analysis_scope->0@)
            &&& told.text_field("summary"@) == Some(envelope.analysis_summary->0@)
            &&& told.unsigned_field("retry_after_ms"@) == envelope.analysis_retry_after_ms
            &&& told.field("basis"@) == if envelope.analysis_basis is Some {
                Some(text_array(strings_view(envelope.analysis_basis->0@)))
            } else {
                None
            }
        },
{
    lemma_envelope_fields_differ();
    reveal_strlit("scope");
    reveal_strlit("summary");
    reveal_strlit("basis");
    reveal_strlit("retry_after_ms");
    assert("scope"@.len() != "summary"@.len());
    assert("scope"@[0] != "basis"@[0]);
    assert("scope"@.len() != "retry_after_ms"@.len());
    assert("summary"@.len() != "basis"@.len());
    assert("summary"@.len() != "retry_after_ms"@.len());
    assert("basis"@.len() != "retry_after_ms"@.len());
}

/// What was said of whether a response is an error goes before what the response holds.
/// Else one that says it is not ok is an error, and one that says nothing of that is where
/// it holds an error.
pub proof fn law_errors_are_told<F>(envelope: AnalysisEnvelope<F>, fields: Map<Seq<char>, JsonView>)
    ensures
        envelope.is_error_override matches Some(said) ==> envelope.is_error(fields) == said,
        envelope.is_error_override is None && JsonView::Object(fields).bool_field("ok"@) == Some(
            false,
        ) ==> envelope.is_error(fields),
        envelope.is_error_override is None && JsonView::Object(fields).bool_field("ok"@) == Some(
            true,
        ) ==> !envelope.is_error(fields),
        envelope.is_error_override is None && JsonView::Object(fields).field("ok"@) is None
            ==> envelope.is_error(fields) == (JsonView::Object(fields).field("error"@) is Some),
{
}

/// The summary of an index tells each of its numbers.
pub proof fn law_index_is_summed_up(project: ProjectStats, capability: CapabilityStats)
    ensures
        ({
            let summary = index_summary(Some(project), Some(capability));
            &&& crate::text::holds_text(summary, decimal(project.total_files as nat) + " files"@)
            &&& crate::text::holds_text(
                summary,
                decimal(capability.files_with_dataflow as nat) + " dataflow"@,
            )
            &&& crate::text::holds_text(
                summary,
                decimal(capability.files_structural_only as nat) + " structural"@,
            )
            &&& crate::text::holds_text(
                summary,
                decimal(capability.files_manifest_only as nat) + " manifest"@,
            )
            &&& crate::text::holds_text(
                summary,
                decimal(project.total_symbols as nat) + " symbols"@,
            )
            &&& crate::text::holds_text(summary, decimal(project.total_edges as nat) + " edges"@)
            &&& project.index_mode matches Some(mode) ==> crate::text::holds_text(
                summary,
                "("@ + mode@ + ")"@,
            )
        }),
{
    let mode = match project.index_mode {
        Some(m) => m@,
        None => "unknown"@,
    };
    reveal_strlit("Indexed (");
    reveal_strlit("Indexed ");
    reveal_strlit("(");
    reveal_strlit("): ");
    reveal_strlit(")");
    reveal_strlit(": ");
    assert("Indexed ("@ =~= "Indexed "@ + "("@);
    assert("): "@ =~= ")"@ + ": "@);
    let start = "Indexed ("@ + mode + "): "@;
    crate::text::law_text_holds_its_parts("Indexed "@, "("@ + mode + ")"@, ": "@);
    assert(start =~= "Indexed "@ + ("("@ + mode + ")"@) + ": "@);
    let (a, b, c) = (
        decimal(project.total_files as nat),
        decimal(capability.files_with_dataflow as nat),
        decimal(capability.files_structural_only as nat),
    );
    let (d, e, f) = (
        decimal(capability.files_manifest_only as nat),
        decimal(project.total_symbols as nat),
        decimal(project.total_edges as nat),
    );
    reveal_strlit(" files (");
    reveal_strlit(" files");
    reveal_strlit(" (");
    assert(" files ("@ =~= " files"@ + " ("@);
    lemma_counted(start, a, " files"@, " ("@);
    let files = start + a + " files ("@;
    reveal_strlit(" dataflow, ");
    reveal_strlit(" dataflow");
    reveal_strlit(", ");
    assert(" dataflow, "@ =~= " dataflow"@ + ", "@);
    lemma_counted(files, b, " dataflow"@, ", "@);
    let dataflow = files + b + " dataflow, "@;
    reveal_strlit(" structural, ");
    reveal_strlit(" structural");
    assert(" structural, "@ =~= " structural"@ + ", "@);
    lemma_counted(dataflow, c, " structural"@, ", "@);
    let structural = dataflow + c + " structural, "@;
    reveal_strlit(" manifest), ");
    reveal_strlit(" manifest");
    reveal_strlit("), ");
    assert(" manifest), "@ =~= " manifest"@ + "), "@);
    lemma_counted(structural, d, " manifest"@, "), "@);
    let manifest = structural + d + " manifest), "@;
    reveal_strlit(" symbols, ");
    reveal_strlit(" symbols");
    assert(" symbols, "@ =~= " symbols"@ + ", "@);
    lemma_counted(manifest, e, " symbols"@, ", "@);
    let symbols = manifest + e + " symbols, "@;
    assert(" edges"@ + Seq::<char>::empty() =~= " edges"@);
    lemma_counted(symbols, f, " edges"@, Seq::empty());
    assert(index_summary(Some(project), Some(capability)) == symbols + f + " edges"@);
}

proof fn lemma_counted(start: Seq<char>, count: Seq<char>, word: Seq<char>, rest: Seq<char>)
    ensures
        crate::text::holds_text(start + count + (word + rest), count + word),
        forall|part: Seq<char>|
            crate::text::holds_text(start, part) ==> #[trigger] crate::text::holds_text(
                start + count + (word + rest),
                part,
            ),
{
    let whole = start + count + (word + rest);
    crate::text::law_text_holds_its_parts(start, count + word, rest);
    assert(whole =~= start + (count + word) + rest);
    assert forall|part: Seq<char>|
        crate::text::holds_text(start, part) implies #[trigger] crate::text::holds_text(
        whole,
        part,
    ) by {
        let at = choose|at: int| #[trigger] crate::text::occurs_at(start, part, at);
        assert(whole.subrange(at, at + part.len()) =~= start.subrange(at, at + part.len()));
        assert(crate::text::occurs_at(whole, part, at));
    }
}

/// Where the reach was not set, what is known of the index is told, of the project or of its
/// files; where nothing is known, nothing is told.
pub proof fn law_index_is_told_without_a_reach<F>(
    envelope: AnalysisEnvelope<F>,
    body: Map<Seq<char>, JsonView>,
)
    requires
        envelope.analysis_scope is None,
        envelope.analysis_summary is None,
        !body.contains_key("analysis"@),
    ensures
        ({
            let told = JsonView::Object(envelope.enveloped(body)).field("analysis"@);
            &&& told is Some == (envelope.project_stats is Some || envelope.capability_stats
                is Some)
            &&& told matches Some(analysis) ==> analysis.text_field("scope"@) == Some("repo"@)
                && analysis.text_field("summary"@) == Some(
                index_summary(envelope.project_stats, envelope.capability_stats),
            )
        }),
{
    lemma_envelope_fields_differ();
    reveal_strlit("scope");
    reveal_strlit("summary");
    assert("scope"@.len() != "summary"@.len());
}

} // verus!
