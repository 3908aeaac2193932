//! Comparing the side effects of sibling branches: how far the analysis reaches,
//! and what is answered.

use vstd::prelude::*;
use vstd::string::*;

use crate::json::{items_view, no_fields, Json, JsonObject, JsonView};
use crate::text::{string_view, strings_view};
use crate::tools::analysis_envelope::{AnalysisEnvelope, GapRecord};
use crate::tools::analysis_response::{CoverageTier, Precision};
use crate::tools::args::{flag_arg, flag_of};
use crate::tools::calls::{checked_symbol, symbol_refusal};
use crate::tools::symbols::{
    input_name, line_number, shown_line, symbol_input_qname, SymbolId, SymbolInput,
    SymbolResolution, ScoredCandidate,
};

verus! {

/// After how long a request should be repeated whose surroundings are still being
/// analysed.
pub const BRANCH_DIFF_RETRY_MS: u64 = 8000;

/// What a branch comparison rests on.
#[derive(Clone, Copy, Debug, PartialEq, Eq, Structural)]
pub enum BranchDiffAnalysisMode {
    /// Control flow alone, as asked for.
    CfgOnly,
    /// Control flow and complete data flow.
    SemanticReady,
    /// Control flow, while data flow is still being analysed.
    SemanticBoundary { has_dataflow: bool },
    /// Control flow alone, because data flow could not be had.
    SemanticUnavailable,
}

/// What has been analysed around a function.
pub struct LazyWindow {
    pub truncated: bool,
    pub units_pending: usize,
    pub pending_job_ids: Vec<String>,
    pub quality: Option<Precision>,
    /// Whether there are data-flow facts.
    pub has_dataflow: bool,
}

/// Whether something is missing from a window.
pub open spec fn has_boundary(window: LazyWindow) -> bool {
    window.truncated || window.units_pending > 0 || window.pending_job_ids@.len() > 0 || (
    window.quality matches Some(precision) && (precision.coverage is Boundary
        || precision.coverage is Partial || precision.coverage is Manifest))
}

/// Whether something is missing from a window.
pub fn lazy_window_has_boundary(window: &LazyWindow) -> (missing: bool)
    ensures
        missing == has_boundary(*window),
{
    window.truncated || window.units_pending > 0 || window.pending_job_ids.len() > 0
        || match &window.quality {
        Some(precision) => match precision.coverage {
            CoverageTier::Boundary { .. } => true,
            CoverageTier::Partial { .. } => true,
            CoverageTier::Manifest => true,
            _ => false,
        },
        None => false,
    }
}

/// What a comparison rests on.
pub open spec fn analysis_mode(
    use_semantic: bool,
    window: Option<LazyWindow>,
    refinement_failed: bool,
) -> BranchDiffAnalysisMode {
    if !use_semantic {
        BranchDiffAnalysisMode::CfgOnly
    } else if refinement_failed {
        BranchDiffAnalysisMode::SemanticUnavailable
    } else {
        match window {
            Some(w) => if w.has_dataflow && !has_boundary(w) {
                BranchDiffAnalysisMode::SemanticReady
            } else {
                BranchDiffAnalysisMode::SemanticBoundary { has_dataflow: w.has_dataflow }
            },
            None => BranchDiffAnalysisMode::SemanticBoundary { has_dataflow: false },
        }
    }
}

/// What a comparison rests on.
pub fn classify_branch_diff_analysis(
    use_semantic: bool,
    semantic_window: &Option<LazyWindow>,
    dataflow_refinement_failed: bool,
) -> (mode: BranchDiffAnalysisMode)
    ensures
        mode == analysis_mode(use_semantic, *semantic_window, dataflow_refinement_failed),
{
    if !use_semantic {
        return BranchDiffAnalysisMode::CfgOnly;
    }
    if dataflow_refinement_failed {
        return BranchDiffAnalysisMode::SemanticUnavailable;
    }
    match semantic_window {
        Some(window) => if window.has_dataflow && !lazy_window_has_boundary(window) {
            BranchDiffAnalysisMode::SemanticReady
        } else {
            BranchDiffAnalysisMode::SemanticBoundary { has_dataflow: window.has_dataflow }
        },
        None => BranchDiffAnalysisMode::SemanticBoundary { has_dataflow: false },
    }
}

/// The facts that a comparison rests on.
pub open spec fn basis_of(mode: BranchDiffAnalysisMode) -> Seq<Seq<char>> {
    match mode {
        BranchDiffAnalysisMode::SemanticReady => seq!["cfg"@, "dataflow"@, "effects"@],
        BranchDiffAnalysisMode::SemanticBoundary { has_dataflow: true } => seq![
            "cfg"@,
            "dataflow"@,
            "effects"@,
        ],
        _ => seq!["cfg"@],
    }
}

/// What is said of how far a comparison reaches.
pub open spec fn summary_of(mode: BranchDiffAnalysisMode) -> Seq<char> {
    match mode {
        BranchDiffAnalysisMode::SemanticBoundary { .. } => "Branch diff used the focused function context; nearby semantic facts are still being expanded."@,
        BranchDiffAnalysisMode::SemanticUnavailable => "Semantic branch diff fell back to CFG-only effects because dataflow facts are unavailable."@,
        BranchDiffAnalysisMode::SemanticReady => "Semantic branch diff used complete focused function CFG and dataflow effects."@,
        BranchDiffAnalysisMode::CfgOnly => "Branch diff used complete focused function CFG effects."@,
    }
}

/// Whether a gap is the one that is reported without data flow.
pub open spec fn is_dataflow_gap(gap: GapRecord) -> bool {
    gap.scope@ == "current function"@ && gap.reason@ == "no_dataflow"@ && gap.detail@
        == "Dataflow refinement failed for this function. The analysis fell back to CFG-only effects. Check that the source file compiles successfully and the function uses recognized memory-allocation patterns."@
}

/// Whether an envelope says how far a comparison reaches. Where facts are still being
/// analysed the request may be repeated; otherwise the response is final, and says
/// what is missing.
pub open spec fn tells_reach<F>(
    envelope: AnalysisEnvelope<F>,
    mode: BranchDiffAnalysisMode,
    before: AnalysisEnvelope<F>,
) -> bool {
    &&& string_view(envelope.analysis_scope) == Some("local"@)
    &&& string_view(envelope.analysis_summary) == Some(summary_of(mode))
    &&& envelope.analysis_basis matches Some(basis) && strings_view(basis@) == basis_of(mode)
    &&& match mode {
        BranchDiffAnalysisMode::SemanticBoundary { .. } => envelope.analysis_retry_after_ms == Some(
            BRANCH_DIFF_RETRY_MS,
        ) && envelope.gap_records == before.gap_records,
        BranchDiffAnalysisMode::SemanticUnavailable => envelope.analysis_retry_after_ms
            == before.analysis_retry_after_ms && (envelope.gap_records matches Some(gaps)
            && gaps@.len() == 1 && is_dataflow_gap(gaps@[0])),
        _ => envelope.analysis_retry_after_ms == before.analysis_retry_after_ms && (
        envelope.gap_records matches Some(gaps) && gaps@.len() == 0),
    }
}

/// Whether nothing but the reach of the analysis differs.
pub open spec fn same_otherwise<F>(a: AnalysisEnvelope<F>, b: AnalysisEnvelope<F>) -> bool {
    &&& a.query_id == b.query_id
    &&& a.tool_name == b.tool_name
    &&& a.tool_args == b.tool_args
    &&& a.root_warnings == b.root_warnings
    &&& a.lazy_warnings == b.lazy_warnings
    &&& a.is_error_override == b.is_error_override
    &&& a.coverage_counts == b.coverage_counts
    &&& a.focus_result == b.focus_result
    &&& a.capability_stats == b.capability_stats
    &&& a.project_stats == b.project_stats
}

fn cfg_basis() -> (basis: Vec<String>)
    ensures
        strings_view(basis@) == seq!["cfg"@],
{
    let mut basis: Vec<String> = Vec::new();
    basis.push("cfg".to_owned());
    proof {
        assert(strings_view(basis@) =~= seq!["cfg"@]);
    }
    basis
}

fn full_basis() -> (basis: Vec<String>)
    ensures
        strings_view(basis@) == seq!["cfg"@, "dataflow"@, "effects"@],
{
    let mut basis: Vec<String> = Vec::new();
    basis.push("cfg".to_owned());
    basis.push("dataflow".to_owned());
    basis.push("effects".to_owned());
    proof {
        assert(strings_view(basis@) =~= seq!["cfg"@, "dataflow"@, "effects"@]);
    }
    basis
}

/// Says in an envelope how far a comparison reaches.
pub fn apply_branch_diff_analysis<F>(
    envelope: AnalysisEnvelope<F>,
    mode: BranchDiffAnalysisMode,
) -> (filled: AnalysisEnvelope<F>)
    ensures
        tells_reach(filled, mode, envelope),
        same_otherwise(filled, envelope),
{
    let scoped = envelope.with_analysis_scope("local".to_owned());
    match mode {
        BranchDiffAnalysisMode::SemanticBoundary { has_dataflow } => {
            let basis = if has_dataflow {
                full_basis()
            } else {
                cfg_basis()
            };
            scoped.with_analysis_basis(basis).with_analysis_summary(
                "Branch diff used the focused function context; nearby semantic facts are still being expanded.".to_owned(),
            ).with_analysis_retry_after_ms(BRANCH_DIFF_RETRY_MS)
        },
        BranchDiffAnalysisMode::SemanticUnavailable => {
            let mut gaps: Vec<GapRecord> = Vec::new();
            gaps.push(
                GapRecord {
                    scope: "current function".to_owned(),
                    reason: "no_dataflow".to_owned(),
                    detail: "Dataflow refinement failed for this function. The analysis fell back to CFG-only effects. Check that the source file compiles successfully and the function uses recognized memory-allocation patterns.".to_owned(),
                },
            );
            scoped.with_analysis_basis(cfg_basis()).with_gap_records(gaps).with_analysis_summary(
                "Semantic branch diff fell back to CFG-only effects because dataflow facts are unavailable.".to_owned(),
            )
        },
        BranchDiffAnalysisMode::SemanticReady => scoped.with_analysis_basis(
            full_basis(),
        ).with_gap_records(Vec::new()).with_analysis_summary(
            "Semantic branch diff used complete focused function CFG and dataflow effects.".to_owned(),
        ),
        BranchDiffAnalysisMode::CfgOnly => scoped.with_analysis_basis(
            cfg_basis(),
        ).with_gap_records(Vec::new()).with_analysis_summary(
            "Branch diff used complete focused function CFG effects.".to_owned(),
        ),
    }
}

/// What a request for a branch comparison asks for.
pub struct BranchDiffPlan {
    pub input: SymbolInput,
    pub use_semantic: bool,
}

/// Why a request for a branch comparison is refused.
pub open spec fn branch_diff_refusal(
    input: Result<SymbolInput, String>,
    max_name_length: nat,
) -> Option<Seq<char>> {
    match symbol_refusal(input, max_name_length) {
        Some(e) => Some(e),
        None => if input_name(input->Ok_0).len() == 0 {
            Some("Missing required parameter: symbol"@)
        } else {
            None
        },
    }
}

/// Reads a request for a branch comparison.
pub fn plan_branch_diff(
    args: &Json,
    input: Result<SymbolInput, String>,
    max_name_length: usize,
) -> (plan: Result<BranchDiffPlan, String>)
    ensures
        match plan {
            Ok(p) => input == Ok::<SymbolInput, String>(p.input) && branch_diff_refusal(
                input,
                max_name_length as nat,
            ) is None && p.use_semantic == flag_of(args@, "semantic"@, true),
            Err(e) => branch_diff_refusal(input, max_name_length as nat) == Some(e@),
        },
{
    let symbol = match checked_symbol(input, max_name_length) {
        Ok(i) => i,
        Err(e) => return Err(e),
    };
    if symbol_input_qname(&symbol).is_empty() {
        return Err("Missing required parameter: symbol".to_owned());
    }
    Ok(BranchDiffPlan { input: symbol, use_semantic: flag_arg(args, "semantic", true) })
}

/// What became of the function whose branches are compared.
pub enum BranchDiffRoot {
    Found(SymbolId),
    Ambiguous(Vec<ScoredCandidate>),
    /// It is not known yet: the request may be repeated later.
    Missing { detail: String },
    Failed(String),
}

/// The function whose branches are compared, from what its name resolves to.
pub fn branch_diff_root(resolution: Result<SymbolResolution, String>) -> (root: BranchDiffRoot)
    ensures
        match resolution {
            Ok(SymbolResolution::Single { symbol_id, .. }) => root == BranchDiffRoot::Found(
                symbol_id,
            ),
            Ok(SymbolResolution::Ambiguous { candidates, .. }) => root
                == BranchDiffRoot::Ambiguous(candidates),
            Ok(SymbolResolution::NotFound { .. }) => root matches BranchDiffRoot::Missing { detail }
                && detail@ == "branch_diff requires the function CFG to be materialized first"@,
            Err(e) => root == BranchDiffRoot::Failed(e),
        },
{
    match resolution {
        Ok(SymbolResolution::Single { symbol_id, .. }) => BranchDiffRoot::Found(symbol_id),
        Ok(SymbolResolution::Ambiguous { candidates, .. }) => BranchDiffRoot::Ambiguous(candidates),
        Ok(SymbolResolution::NotFound { .. }) => BranchDiffRoot::Missing {
            detail: "branch_diff requires the function CFG to be materialized first".to_owned(),
        },
        Err(e) => BranchDiffRoot::Failed(e),
    }
}

/// The side effects of a branch.
pub struct BranchEffects {
    pub frees: Json,
    pub allocates: Json,
    pub writes: Json,
    pub reads: Json,
}

/// Two sibling branches and how they differ.
pub struct BranchDiff {
    pub branch_node_line: u32,
    pub common_prefix: Json,
    pub path_true: BranchEffects,
    pub path_false: BranchEffects,
    pub suspicious_asymmetry: Json,
}

/// Side effects as they are listed.
pub open spec fn effects_view(effects: BranchEffects) -> JsonView {
    JsonView::Object(
        no_fields().insert("frees"@, effects.frees@).insert(
            "allocates"@,
            effects.allocates@,
        ).insert("writes"@, effects.writes@).insert("reads"@, effects.reads@),
    )
}

/// Two sibling branches as they are listed.
pub open spec fn branch_view(diff: BranchDiff) -> JsonView {
    JsonView::Object(
        no_fields().insert(
            "line"@,
            JsonView::Unsigned(shown_line(diff.branch_node_line) as u64),
        ).insert("common_field"@, diff.common_prefix@).insert(
            "true_path"@,
            effects_view(diff.path_true),
        ).insert("false_path"@, effects_view(diff.path_false)).insert(
            "asymmetry"@,
            diff.suspicious_asymmetry@,
        ),
    )
}

/// The response to a request for a branch comparison.
pub open spec fn branch_diff_fields(
    function: Seq<char>,
    diffs: Seq<BranchDiff>,
) -> Map<Seq<char>, JsonView> {
    let base = no_fields().insert("ok"@, JsonView::Bool(true)).insert(
        "function"@,
        JsonView::Str(function),
    ).insert("branch_count"@, JsonView::Unsigned(diffs.len() as u64)).insert(
        "branches"@,
        JsonView::Array(Seq::new(diffs.len(), |i: int| branch_view(diffs[i]))),
    );
    if diffs.len() == 0 {
        base.insert(
            "diagnostic"@,
            JsonView::Object(
                no_fields().insert(
                    "message"@,
                    JsonView::Str(
                        "No branch asymmetries found. The function may have straight-line code without branch points, or the CFG analysis did not detect sibling branches."@,
                    ),
                ).insert(
                    "suggestion"@,
                    JsonView::Str(
                        "Verify the function contains if/else or switch constructs. For C/C++, ensure the source file compiles to produce accurate CFG data."@,
                    ),
                ),
            ),
        )
    } else {
        base
    }
}

fn effects_to_json(effects: &BranchEffects) -> (json: Json)
    ensures
        json@ == effects_view(*effects),
{
    let mut object = JsonObject::new();
    object.put("frees", effects.frees.clone());
    object.put("allocates", effects.allocates.clone());
    object.put("writes", effects.writes.clone());
    object.put("reads", effects.reads.clone());
    Json::Object(object)
}

/// The response to a request for a branch comparison.
pub fn branch_diff_body(function: &str, diffs: &Vec<BranchDiff>) -> (body: Json)
    ensures
        body@ == JsonView::Object(branch_diff_fields(function@, diffs@)),
{
    let mut items: Vec<Json> = Vec::new();
    let mut i: usize = 0;
    while i < diffs.len()
        invariant
            i <= diffs@.len(),
            items@.len() == i,
            forall|j: int| 0 <= j < i ==> (#[trigger] items@[j])@ == branch_view(diffs@[j]),
        decreases diffs@.len() - i,
    {
        let diff = &diffs[i];
        let mut object = JsonObject::new();
        object.put("line", Json::Unsigned(line_number(diff.branch_node_line) as u64));
        object.put("common_field", diff.common_prefix.clone());
        object.put("true_path", effects_to_json(&diff.path_true));
        object.put("false_path", effects_to_json(&diff.path_false));
        object.put("asymmetry", diff.suspicious_asymmetry.clone());
        items.push(Json::Object(object));
        i = i + 1;
    }
    proof {
        assert(items_view(items@) =~= Seq::new(diffs@.len(), |i: int| branch_view(diffs@[i])));
    }
    let mut object = JsonObject::new();
    object.put("ok", Json::Bool(true));
    object.put("function", Json::text(function));
    object.put("branch_count", Json::count(diffs.len()));
    object.put("branches", Json::Array(items));
    if diffs.len() == 0 {
        let mut diagnostic = JsonObject::new();
        diagnostic.put(
            "message",
            Json::text(
                "No branch asymmetries found. The function may have straight-line code without branch points, or the CFG analysis did not detect sibling branches.",
            ),
        );
        diagnostic.put(
            "suggestion",
            Json::text(
                "Verify the function contains if/else or switch constructs. For C/C++, ensure the source file compiles to produce accurate CFG data.",
            ),
        );
        object.put("diagnostic", Json::Object(diagnostic));
    }
    Json::Object(object)
}

/// The response to a comparison that failed.
pub fn branch_diff_failure(function: &str, error: &str) -> (body: Json)
    ensures
        body@ == JsonView::Object(
            no_fields().insert("ok"@, JsonView::Bool(false)).insert(
                "function"@,
                JsonView::Str(function@),
            ).insert("error"@, JsonView::Str(error@)),
        ),
{
    let mut object = JsonObject::new();
    object.put("ok", Json::Bool(false));
    object.put("function", Json::text(function));
    object.put("error", Json::text(error));
    Json::Object(object)
}

/// What a request is warned of whose data flow could not be analysed.
pub fn refinement_warning(symbol: &str) -> (warning: String)
    ensures
        warning@ == "Semantic dataflow refinement failed for '"@ + symbol@ + "'"@,
{
    let mut warning = "Semantic dataflow refinement failed for '".to_owned();
    warning.append(symbol);
    warning.append("'");
    warning
}

/// A comparison is repeated only while its surroundings are still being analysed,
/// and what it lacks for good is reported only when it is final.
pub proof fn law_branch_diff_waits_only_at_the_boundary<F>(
    before: AnalysisEnvelope<F>,
    filled: AnalysisEnvelope<F>,
    mode: BranchDiffAnalysisMode,
)
    requires
        before.analysis_retry_after_ms is None,
        before.gap_records is None,
        tells_reach(filled, mode, before),
    ensures
        filled.analysis_retry_after_ms is Some <==> mode is SemanticBoundary,
        filled.reports_gaps() <==> mode is SemanticUnavailable,
{
}

/// Data flow that could not be analysed is never waited for.
pub proof fn law_failed_refinement_is_final(use_semantic: bool, window: Option<LazyWindow>)
    ensures
        !(analysis_mode(use_semantic, window, true) is SemanticBoundary),
{
}

/// Whether a listed value tells side effects.
pub open spec fn tells_effects(listed: JsonView, effects: BranchEffects) -> bool {
    &&& listed.field("frees"@) == Some(effects.frees@)
    &&& listed.field("allocates"@) == Some(effects.allocates@)
    &&& listed.field("writes"@) == Some(effects.writes@)
    &&& listed.field("reads"@) == Some(effects.reads@)
}

/// Whether a listed value tells two sibling branches, with the effects of each under its
/// own name.
pub open spec fn tells_branches(listed: JsonView, diff: BranchDiff) -> bool {
    &&& diff.branch_node_line < u32::MAX ==> listed.unsigned_field("line"@) == Some(
        (diff.branch_node_line + 1) as u64,
    )
    &&& listed.field("common_field"@) == Some(diff.common_prefix@)
    &&& listed.field("true_path"@) matches Some(on_true) && tells_effects(on_true, diff.path_true)
    &&& listed.field("false_path"@) matches Some(on_false) && tells_effects(
        on_false,
        diff.path_false,
    )
    &&& listed.field("asymmetry"@) == Some(diff.suspicious_asymmetry@)
}

/// All pairs of branches are listed, in order, and counted; that there is none is
/// explained.
pub proof fn law_every_branch_is_listed(function: Seq<char>, diffs: Seq<BranchDiff>)
    ensures
        ({
            let body = JsonView::Object(branch_diff_fields(function, diffs));
            &&& body.bool_field("ok"@) == Some(true)
            &&& body.text_field("function"@) == Some(function)
            &&& body.unsigned_field("branch_count"@) == Some(diffs.len() as u64)
            &&& body.field("branches"@) matches Some(JsonView::Array(listed)) && listed.len()
                == diffs.len() && forall|i: int|
                0 <= i < listed.len() ==> tells_branches(#[trigger] listed[i], diffs[i])
            &&& body.field("diagnostic"@) is Some == (diffs.len() == 0)
        }),
{
    reveal_strlit("ok");
    reveal_strlit("function");
    reveal_strlit("branch_count");
    reveal_strlit("branches");
    reveal_strlit("diagnostic");
    reveal_strlit("line");
    reveal_strlit("common_field");
    reveal_strlit("true_path");
    reveal_strlit("false_path");
    reveal_strlit("asymmetry");
    reveal_strlit("frees");
    reveal_strlit("allocates");
    reveal_strlit("writes");
    reveal_strlit("reads");
    assert("ok"@.len() != "function"@.len());
    assert("ok"@.len() != "branch_count"@.len());
    assert("ok"@.len() != "branches"@.len());
    assert("ok"@.len() != "diagnostic"@.len());
    assert("function"@.len() != "branch_count"@.len());
    assert("function"@[0] != "branches"@[0]);
    assert("function"@.len() != "diagnostic"@.len());
    assert("branch_count"@.len() != "branches"@.len());
    assert("branch_count"@.len() != "diagnostic"@.len());
    assert("branches"@.len() != "diagnostic"@.len());
    assert("line"@.len() != "common_field"@.len());
    assert("line"@.len() != "true_path"@.len());
    assert("line"@.len() != "false_path"@.len());
    assert("line"@.len() != "asymmetry"@.len());
    assert("common_field"@.len() != "true_path"@.len());
    assert("common_field"@.len() != "false_path"@.len());
    assert("common_field"@.len() != "asymmetry"@.len());
    assert("true_path"@.len() != "false_path"@.len());
    assert("true_path"@[0] != "asymmetry"@[0]);
    assert("false_path"@.len() != "asymmetry"@.len());
    assert("frees"@.len() != "allocates"@.len());
    assert("frees"@.len() != "writes"@.len());
    assert("frees"@[0] != "reads"@[0]);
    assert("allocates"@.len() != "writes"@.len());
    assert("allocates"@.len() != "reads"@.len());
    assert("writes"@.len() != "reads"@.len());
    let body = JsonView::Object(branch_diff_fields(function, diffs));
    if let Some(JsonView::Array(listed)) = body.field("branches"@) {
        assert forall|i: int| 0 <= i < listed.len() implies tells_branches(
            #[trigger] listed[i],
            diffs[i],
        ) by {
            assert(listed[i] == branch_view(diffs[i]));
        }
    }
}

/// A comparison rests on complete data flow only where it was asked for and had, nothing was
/// left out, nothing is pending, and its surroundings are covered as a whole.
pub proof fn law_complete_comparison_lacks_nothing(
    use_semantic: bool,
    window: Option<LazyWindow>,
    refinement_failed: bool,
)
    ensures
        analysis_mode(use_semantic, window, refinement_failed) is SemanticReady <==> use_semantic
            && !refinement_failed && (window matches Some(w) && w.has_dataflow && !w.truncated
            && w.units_pending == 0 && w.pending_job_ids@.len() == 0 && (
        w.quality matches Some(precision) ==> !(precision.coverage is Boundary)
            && !(precision.coverage is Partial) && !(precision.coverage is Manifest))),
        analysis_mode(use_semantic, window, refinement_failed) is CfgOnly <==> !use_semantic,
{
}

/// Control flow is always part of what a comparison rests on; data flow is where there
/// is some.
pub proof fn law_basis_names_what_was_used(mode: BranchDiffAnalysisMode)
    ensures
        basis_of(mode).contains("cfg"@),
        basis_of(mode).contains("dataflow"@) <==> mode is SemanticReady || mode
            == (BranchDiffAnalysisMode::SemanticBoundary { has_dataflow: true }),
{
    reveal_strlit("cfg");
    reveal_strlit("dataflow");
    assert("cfg"@.len() != "dataflow"@.len());
    assert(basis_of(mode)[0] == "cfg"@);
    if basis_of(mode).len() > 1 {
        assert(basis_of(mode)[1] == "dataflow"@);
    }
}

/// A comparison is made of a function with a name that is not too long, and of no other.
pub proof fn law_named_functions_are_compared(
    input: Result<SymbolInput, String>,
    max_name_length: nat,
)
    ensures
        branch_diff_refusal(input, max_name_length) is None <==> symbol_refusal(
            input,
            max_name_length,
        ) is None && (input matches Ok(symbol) && input_name(symbol).len() > 0),
        symbol_refusal(input, max_name_length) is Some ==> branch_diff_refusal(
            input,
            max_name_length,
        ) == symbol_refusal(input, max_name_length),
{
}

/// Saying how far a comparison reaches leaves the query, its tool, its arguments, its
/// warnings and what was analysed as they were.
pub proof fn law_reach_changes_nothing_else<F>(
    before: AnalysisEnvelope<F>,
    after: AnalysisEnvelope<F>,
    body: Map<Seq<char>, JsonView>,
)
    requires
        same_otherwise(after, before),
    ensures
        after.query_id@ == before.query_id@,
        after.tool_name@ == before.tool_name@,
        after.tool_args@ == before.tool_args@,
        after.warnings() == before.warnings(),
        after.is_error(body) == before.is_error(body),
        after.focus_result == before.focus_result,
        after.coverage_counts == before.coverage_counts,
        after.project_stats == before.project_stats,
        after.capability_stats == before.capability_stats,
{
}

/// Where data flow could not be analysed, that is the one gap that is reported, of the
/// function itself; and what the comparison rests on is told in every case.
pub proof fn law_missing_data_flow_is_reported<F>(
    before: AnalysisEnvelope<F>,
    filled: AnalysisEnvelope<F>,
    mode: BranchDiffAnalysisMode,
)
    requires
        tells_reach(filled, mode, before),
    ensures
        mode is SemanticUnavailable ==> (filled.gap_records matches Some(gaps) && gaps@.len() == 1
            && gaps@[0].reason@ == "no_dataflow"@ && gaps@[0].scope@ == "current function"@),
        string_view(filled.analysis_scope) == Some("local"@),
        filled.analysis_basis matches Some(basis) && basis@.len() > 0 && basis@[0]@ == "cfg"@,
        mode is SemanticBoundary ==> filled.analysis_retry_after_ms == Some(BRANCH_DIFF_RETRY_MS),
{
    if let Some(basis) = filled.analysis_basis {
        assert(strings_view(basis@)[0] == "cfg"@);
        assert(strings_view(basis@).len() == basis@.len());
    }
}

} // verus!
