use atlas_mcp::json::Json;
use atlas_mcp::json_text::parse_json;
use atlas_mcp::tools::analysis_envelope::{
    AnalysisEnvelope, BuiltResponse, CapabilityStats, GapRecord, ProjectStats, QueryStatus,
};
use atlas_mcp::tools::analysis_response::{
    confidence_to_string, coverage_tier_to_label, precision_to_view, CoverageTier, Precision,
    SemanticConfidence, SymbolTier,
};
use atlas_mcp::tools::branch_diff::{
    apply_branch_diff_analysis, branch_diff_body, branch_diff_failure, branch_diff_root,
    classify_branch_diff_analysis, lazy_window_has_boundary, plan_branch_diff,
    refinement_warning, BranchDiff, BranchDiffAnalysisMode, BranchDiffRoot, BranchEffects,
    LazyWindow,
};
use atlas_mcp::tools::symbols::{SymbolInput, SymbolResolution};

type Envelope = AnalysisEnvelope<u32>;

fn json(text: &str) -> Json {
    parse_json(text).expect("JSON text")
}

fn value(text: &str) -> serde_json::Value {
    serde_json::from_str(text).expect("JSON text")
}

fn envelope(tool: &str, args: &str) -> Envelope {
    AnalysisEnvelope::new("q_test".to_string(), tool, &json(args))
}

fn build(envelope: Envelope, body: &str) -> BuiltResponse<u32> {
    envelope.build(json(body), 7)
}

fn gap(scope: &str, reason: &str, detail: &str) -> GapRecord {
    GapRecord {
        scope: scope.to_string(),
        reason: reason.to_string(),
        detail: detail.to_string(),
    }
}

const ARGS: &str = r#"{"symbol": "test_fn"}"#;
const BODY: &str = r#"{"result": "ok"}"#;

#[test]
fn lazy_response_injects_query_id_and_diagnostics() {
    let lr = envelope("test_tool", ARGS);
    let qid = lr.query_id().to_string();
    assert!(!qid.is_empty(), "query_id should be generated");
    let built = build(lr.with_is_error(false), BODY);
    assert!(!built.is_error);
    assert!(built.text.contains("query_id"), "response must contain query_id");
    assert_eq!(built.snapshot.query_id, qid);
    assert_eq!(built.snapshot.tool_name, "test_tool");
    assert_eq!(built.snapshot.created_at, 7);
}

#[test]
fn test_lazy_response_with_coverage_counts() {
    let built = build(
        envelope("test_tool", ARGS)
            .with_coverage_counts(vec![
                ("repo_complete".to_string(), 12),
                ("partial".to_string(), 3),
            ])
            .with_is_error(false),
        BODY,
    );
    assert!(!built.is_error);
    assert!(built.text.contains("coverage_counts"));
    assert!(built.text.contains("repo_complete"));
    assert_eq!(value(&built.text)["coverage_counts"], value(r#"{"repo_complete": 12, "partial": 3}"#));
}

#[test]
fn test_lazy_response_with_gaps() {
    let built = build(
        envelope("test_tool", ARGS)
            .with_gap_records(vec![gap(
                "foo.c",
                "unresolved_import",
                "Import 'bar.h' could not be resolved from this file.",
            )])
            .with_is_error(false),
        BODY,
    );
    assert!(!built.is_error);
    assert!(built.text.contains("\"gaps\""), "should contain gaps field");
    assert!(built.text.contains("unresolved_import"));
    assert_eq!(
        built.snapshot.status,
        QueryStatus::Ready,
        "permanent gaps are terminal when no retry is pending"
    );
}

#[test]
fn test_lazy_response_no_analysis_block_without_explicit_data() {
    let built = build(
        envelope("explore", r#"{"symbol": "test"}"#).with_is_error(false),
        r#"{"ok": true, "data": "test_result"}"#,
    );
    assert!(!built.is_error);
    assert!(!built.text.contains("\"analysis\""));
}

#[test]
fn test_lazy_response_explicit_analysis_data_emits_block() {
    let built = build(
        envelope("explore", r#"{"symbol": "test"}"#)
            .with_is_error(false)
            .with_analysis_scope("local".to_string()),
        r#"{"ok": true, "data": "test_result"}"#,
    );
    assert!(!built.is_error);
    assert!(built.text.contains("\"analysis\""));
    assert!(built.text.contains("\"scope\""));
}

#[test]
fn test_lazy_response_never_emits_work_block() {
    let built = build(
        envelope("explore", r#"{"symbol": "test"}"#)
            .with_analysis_scope("local".to_string())
            .with_analysis_summary("building analysis".to_string())
            .with_analysis_retry_after_ms(2000),
        r#"{"ok": true}"#,
    );
    assert!(!built.text.contains("\"work\""));
}

#[test]
fn test_retryable_response_uses_analysis_retry_without_legacy_fields() {
    let built = build(
        envelope("calls", r#"{"symbol": "test"}"#)
            .with_analysis_scope("local".to_string())
            .with_analysis_summary("building analysis".to_string())
            .with_analysis_retry_after_ms(2000)
            .with_gap_records(vec![gap(
                "pending",
                "temporary",
                "must not escape before terminal state",
            )])
            .with_is_error(false),
        r#"{"ok": true}"#,
    );
    let v = value(&built.text);
    assert_eq!(v["analysis"]["retry_after_ms"], 2000);
    assert!(v.get("partial_result").is_none());
    assert!(v.get("background_refinement").is_none());
    assert!(v.get("gaps").is_none());
    assert_eq!(built.snapshot.status, QueryStatus::Retryable);
}

#[test]
fn test_lazy_response_explicit_analysis_fields() {
    let built = build(
        envelope("explore", r#"{"symbol": "test"}"#)
            .with_analysis_scope("local".to_string())
            .with_analysis_summary("custom summary".to_string())
            .with_analysis_basis(vec!["cfg".to_string()])
            .with_analysis_retry_after_ms(2000)
            .with_is_error(false),
        r#"{"ok": true}"#,
    );
    let v = value(&built.text);
    assert_eq!(v["analysis"]["scope"], "local");
    assert_eq!(v["analysis"]["summary"], "custom summary");
    assert_eq!(v["analysis"]["basis"], value(r#"["cfg"]"#));
    assert_eq!(v["analysis"]["retry_after_ms"], 2000);
    for retired in ["unit", "coverage", "missing", "state", "next_action"] {
        assert!(v["analysis"].get(retired).is_none(), "{} must be absent", retired);
    }
    assert!(v.get("work").is_none());
}

#[test]
fn test_full_response_envelope() {
    let built = build(
        envelope("test_tool", ARGS)
            .with_coverage_counts(vec![("repo_complete".to_string(), 5)])
            .with_gap_records(vec![gap(
                "a.c",
                "unresolved_import",
                "Import 'b.h' could not be resolved from this file.",
            )])
            .with_is_error(false),
        BODY,
    );
    assert!(!built.is_error);
    assert!(built.text.contains("coverage_counts"), "should contain coverage_counts");
    assert!(built.text.contains("gaps"), "should contain gaps");
    assert!(built.text.contains("query_id"), "should contain query_id");
}

#[test]
fn test_coverage_counts_empty() {
    let built = build(
        envelope("test_tool", ARGS).with_coverage_counts(vec![]).with_is_error(false),
        BODY,
    );
    assert!(!built.is_error);
    assert!(built.text.contains("coverage_counts"));
}

#[test]
fn test_gap_records_serialize_as_structured_gaps() {
    let built = build(
        envelope("test_tool", ARGS)
            .with_gap_records(vec![gap(
                "function foo",
                "no_dataflow",
                "Dataflow not available",
            )])
            .with_is_error(false),
        BODY,
    );
    assert!(!built.is_error);
    assert!(built.text.contains("\"gaps\""), "should contain gaps key");
    let v = value(&built.text);
    let gaps = v["gaps"].as_array().unwrap();
    assert_eq!(gaps.len(), 1);
    assert_eq!(gaps[0]["scope"], "function foo");
    assert_eq!(gaps[0]["reason"], "no_dataflow");
    assert_eq!(gaps[0]["detail"], "Dataflow not available");
    assert!(!built.text.contains("background_refinement"));
}

#[test]
fn test_empty_gap_records_do_not_appear() {
    let built = build(
        envelope("test_tool", ARGS).with_gap_records(vec![]).with_is_error(false),
        BODY,
    );
    assert!(!built.is_error);
    assert!(!built.text.contains("\"gaps\""));
}

#[test]
fn envelopes_carry_warnings_and_index_statistics() {
    let built = build(
        envelope("test_tool", ARGS)
            .with_root_warnings(vec!["first".to_string()])
            .with_lazy_warnings(vec!["second".to_string()])
            .with_project_stats(ProjectStats {
                index_mode: Some("full".to_string()),
                total_files: 10,
                total_symbols: 20,
                total_edges: 30,
            })
            .with_capability_stats(CapabilityStats {
                files_with_dataflow: 1,
                files_structural_only: 2,
                files_manifest_only: 3,
                files_with_cfg: 4,
            }),
        BODY,
    );
    let v = value(&built.text);
    assert_eq!(v["warnings"], value(r#"["first", "second"]"#));
    assert_eq!(v["analysis"]["scope"], "repo");
    assert_eq!(
        v["analysis"]["summary"],
        "Indexed (full): 10 files (1 dataflow, 2 structural, 3 manifest), 20 symbols, 30 edges"
    );
    assert!(!built.is_error);
}

#[test]
fn errors_are_read_from_the_body() {
    assert!(build(envelope("t", ARGS), r#"{"ok": false}"#).is_error);
    assert!(build(envelope("t", ARGS), r#"{"error": "no"}"#).is_error);
    assert!(!build(envelope("t", ARGS), r#"{"ok": true, "error": "no"}"#).is_error);
    assert!(build(envelope("t", ARGS).with_is_error(true), BODY).is_error);
}

#[test]
fn queries_are_stored_with_the_arguments_to_resume_them() {
    let built = envelope("context", ARGS)
        .with_focus_result(3)
        .build_with_args(json(BODY), &json(r#"{"symbol": "f", "view": "context"}"#), 1);
    assert_eq!(built.snapshot.focus_result, Some(3));
    assert_eq!(built.snapshot.tool_args.get_str("view"), Some("context"));
}

#[test]
fn test_precision_view_from_coverage_tier() {
    let ct = CoverageTier::ClosureComplete { closure_id: "cl_42".to_string() };
    assert_eq!(coverage_tier_to_label(&ct), "local_complete");
    assert_eq!(coverage_tier_to_label(&CoverageTier::RepoComplete), "repo_complete");
    assert_eq!(
        coverage_tier_to_label(&CoverageTier::Boundary { target_tier: SymbolTier::Full }),
        "boundary"
    );
    assert_eq!(coverage_tier_to_label(&CoverageTier::Partial { gaps: vec![] }), "partial");
    assert_eq!(coverage_tier_to_label(&CoverageTier::Manifest), "basic");
    let view = precision_to_view(&Precision {
        coverage: CoverageTier::Manifest,
        confidence: SemanticConfidence::Low,
    });
    assert_eq!(view.coverage, "basic");
    assert_eq!(view.confidence, "low");
}

#[test]
fn test_confidence_to_string() {
    assert_eq!(confidence_to_string(SemanticConfidence::Certain), "certain");
    assert_eq!(confidence_to_string(SemanticConfidence::High), "high");
    assert_eq!(confidence_to_string(SemanticConfidence::Medium), "medium");
    assert_eq!(confidence_to_string(SemanticConfidence::Low), "low");
}

fn analysis_json_for(mode: BranchDiffAnalysisMode) -> serde_json::Value {
    let lr = apply_branch_diff_analysis(envelope("branch_diff", r#"{"symbol": "f"}"#), mode)
        .with_is_error(false);
    let built = build(lr, r#"{"ok": true}"#);
    assert!(!built.is_error);
    value(&built.text)
}

fn assert_public_analysis_schema(v: &serde_json::Value) {
    for retired in ["unit", "coverage", "missing", "state", "next_action"] {
        assert!(v["analysis"].get(retired).is_none(), "{} must be absent: {}", retired, v);
    }
}

fn lazy_window(has_dataflow: bool, pending: bool) -> LazyWindow {
    LazyWindow {
        truncated: false,
        units_pending: usize::from(pending),
        pending_job_ids: vec![],
        quality: Some(if pending {
            Precision {
                coverage: CoverageTier::Boundary { target_tier: SymbolTier::Full },
                confidence: SemanticConfidence::High,
            }
        } else {
            Precision {
                coverage: CoverageTier::RepoComplete,
                confidence: SemanticConfidence::Certain,
            }
        }),
        has_dataflow,
    }
}

#[test]
fn cfg_only_branch_diff_is_function_complete() {
    let v = analysis_json_for(BranchDiffAnalysisMode::CfgOnly);
    assert_eq!(v["analysis"]["scope"], "local");
    assert_eq!(v["analysis"]["basis"], value(r#"["cfg"]"#));
    assert_public_analysis_schema(&v);
    assert!(v["analysis"].get("retry_after_ms").is_none());
    assert!(v.get("work").is_none(), "work must not be public");
}

#[test]
fn semantic_branch_diff_empty_dataflow_but_capability_ready_is_function_complete() {
    let mode = classify_branch_diff_analysis(true, &Some(lazy_window(true, false)), false);
    assert_eq!(mode, BranchDiffAnalysisMode::SemanticReady);
    let v = analysis_json_for(mode);
    assert_eq!(v["analysis"]["scope"], "local");
    assert_eq!(v["analysis"]["basis"], value(r#"["cfg", "dataflow", "effects"]"#));
    assert_public_analysis_schema(&v);
    assert!(v["analysis"].get("retry_after_ms").is_none());
    assert!(v.get("work").is_none(), "work must not be public");
}

#[test]
fn semantic_branch_diff_boundary_with_dataflow_is_waitable() {
    let mode = classify_branch_diff_analysis(true, &Some(lazy_window(true, true)), false);
    assert_eq!(mode, BranchDiffAnalysisMode::SemanticBoundary { has_dataflow: true });
    let v = analysis_json_for(mode);
    assert_eq!(v["analysis"]["scope"], "local");
    assert_eq!(v["analysis"]["basis"], value(r#"["cfg", "dataflow", "effects"]"#));
    assert_public_analysis_schema(&v);
    assert!(v.get("gaps").is_none(), "gaps must not appear in non-terminal response");
    assert_eq!(v["analysis"]["retry_after_ms"], 8000);
    assert!(v.get("partial_result").is_none(), "partial_result must not be set");
    assert!(v.get("work").is_none(), "work must not be public");
}

#[test]
fn semantic_branch_diff_failed_dataflow_refinement_does_not_suggest_waiting() {
    let mode = classify_branch_diff_analysis(true, &None, true);
    assert_eq!(mode, BranchDiffAnalysisMode::SemanticUnavailable);
    let v = analysis_json_for(mode);
    assert_eq!(v["analysis"]["scope"], "local");
    assert_public_analysis_schema(&v);
    let gaps = v["gaps"].as_array().expect("gaps should be present");
    assert_eq!(gaps.len(), 1);
    assert_eq!(gaps[0]["scope"], "current function");
    assert_eq!(gaps[0]["reason"], "no_dataflow");
    assert!(gaps[0]["detail"].as_str().unwrap().contains("Dataflow refinement failed"));
    assert!(v["analysis"].get("retry_after_ms").is_none());
    assert!(v.get("work").is_none(), "work must not be public");
}

#[test]
fn branch_diff_zero_branches_has_diagnostic() {
    let resp = atlas_mcp::json_text::to_value(&branch_diff_body("test_func", &vec![]));
    let diagnostic = resp.get("diagnostic").expect("diagnostic should exist");
    assert!(!diagnostic["message"].as_str().unwrap().is_empty());
    assert!(!diagnostic["suggestion"].as_str().unwrap().is_empty());
    assert_eq!(resp["function"], "test_func");
    assert_eq!(resp["branch_count"], 0);
}

#[test]
fn branch_diff_lists_branches() {
    let effects = || BranchEffects {
        frees: json(r#"["p"]"#),
        allocates: json("[]"),
        writes: json("[]"),
        reads: json("[]"),
    };
    let diffs = vec![BranchDiff {
        branch_node_line: 4,
        common_prefix: Json::Null,
        path_true: effects(),
        path_false: effects(),
        suspicious_asymmetry: Json::Bool(true),
    }];
    let resp = atlas_mcp::json_text::to_value(&branch_diff_body("f", &diffs));
    assert_eq!(resp["branch_count"], 1);
    assert_eq!(resp["branches"][0]["line"], 5);
    assert_eq!(resp["branches"][0]["true_path"]["frees"][0], "p");
    assert_eq!(resp["branches"][0]["asymmetry"], true);
    assert!(resp.get("diagnostic").is_none());
}

#[test]
fn semantic_branch_diff_missing_is_descriptive() {
    let v = analysis_json_for(BranchDiffAnalysisMode::SemanticBoundary { has_dataflow: true });
    assert!(v.get("gaps").is_none());
    let v2 = analysis_json_for(BranchDiffAnalysisMode::SemanticBoundary { has_dataflow: false });
    assert!(v2.get("gaps").is_none());
    let v3 = analysis_json_for(BranchDiffAnalysisMode::SemanticUnavailable);
    let gaps3 = v3["gaps"].as_array().unwrap();
    assert_eq!(gaps3.len(), 1);
    assert_eq!(gaps3[0]["reason"].as_str().unwrap(), "no_dataflow");
}

#[test]
fn branch_diff_requests_are_checked() {
    let named = |name: &str| Ok(SymbolInput::Name(name.to_string()));
    let plan = plan_branch_diff(&json(r#"{"semantic": false}"#), named("f"), 10).expect("a plan");
    assert!(!plan.use_semantic);
    assert_eq!(
        plan_branch_diff(&json("{}"), named(""), 10).err(),
        Some("Missing required parameter: symbol".to_string())
    );
    assert!(plan_branch_diff(&json("{}"), named("longer than ten"), 10).is_err());
    let missing = SymbolResolution::NotFound { qname: "f".to_string(), suggestions: vec![] };
    assert!(matches!(branch_diff_root(Ok(missing)), BranchDiffRoot::Missing { .. }));
    assert!(matches!(branch_diff_root(Err("x".to_string())), BranchDiffRoot::Failed(_)));
    assert!(lazy_window_has_boundary(&lazy_window(true, true)));
    assert!(!lazy_window_has_boundary(&lazy_window(true, false)));
    assert_eq!(
        classify_branch_diff_analysis(false, &None, true),
        BranchDiffAnalysisMode::CfgOnly
    );
    let failure = atlas_mcp::json_text::to_value(&branch_diff_failure("f", "no CFG"));
    assert!(failure.to_string().contains("no CFG"));
    assert!(refinement_warning("f").contains("f"));
}
