use atlas_mcp::json::{Json, JsonObject};
use atlas_mcp::json_text::{json_to_string, parse_json, to_value};
use atlas_mcp::tools::analysis_envelope::AnalysisEnvelope;
use atlas_mcp::tools::calls::{
    call_graph_roots, callees_body, callees_warnings, callers_body, callers_warnings,
    candidate_incoming_neighbors, candidate_outgoing_neighbors, collect_calls, calls_roots,
    impact_roots, plan_call_graph, plan_calls, symbol_json, CallEntry, CallSide, CandidateEdge,
    RootCalls, Roots,
};
use atlas_mcp::tools::edges::{
    default_call_edges, default_impact_edges, default_path_edges, is_allowed_edge,
    parse_edge_kind, resolve_call_edge_kinds, resolve_path_edge_kinds, EdgeKind,
};
use atlas_mcp::tools::explore::{
    ambiguous_body, dossier_body, failure_text, parse_source_mode, plan_explore,
    scoped_explore_resolution, unknown_body, unknown_envelope, ExploreFailure, SourceMode,
};
use atlas_mcp::tools::impact::{impact_body, plan_impact, ImpactNode};
use atlas_mcp::tools::path::{
    build_hops, next_pair, no_path_body, no_path_warnings, path_body, plan_path,
    resolve_path_direction, source_endpoint, symbol_label, target_endpoint, Breakpoint, Endpoint,
    EndpointKind, Frontier, FrontierNode, FruitlessSearch, Matched, PathNode, PathQuality,
    PathScores, PathStep, RankedPath, TraversalDirection,
};
use atlas_mcp::tools::symbols::{
    build_resolution_meta_for_path, candidate_json, is_callable_kind, needs_focus_retry,
    not_found_resolution_qname, resolution_to_symbol_ids_and_meta, validate_symbol_name_length,
    ResolvedSymbol, ScoredCandidate, SymbolFacts, SymbolId, SymbolInput, SymbolKind,
    SymbolResolution, SymbolSelector, MAX_AMBIGUOUS_CANDIDATES,
};
use atlas_mcp::tools::unresolved::{
    unresolved_call_refs_json, unresolved_call_refs_json_filtered, unresolved_call_target_hint,
    UnresolvedCall,
};

const MAX_NAME: usize = 1024;

fn json(text: &str) -> Json {
    parse_json(text).expect("JSON text")
}

fn id(byte: u8) -> SymbolId {
    SymbolId::from_bytes([byte; 32])
}

fn named(name: &str) -> Result<SymbolInput, String> {
    Ok(SymbolInput::Name(name.to_string()))
}

fn facts(byte: u8, file: &str, qname: &str) -> SymbolFacts {
    SymbolFacts {
        symbol_id: id(byte),
        name: qname.rsplit('.').next().unwrap_or(qname).to_string(),
        qualified_name: qname.to_string(),
        kind: SymbolKind::Function,
        kind_name: "function".to_string(),
        language: "typescript".to_string(),
        file_path: file.to_string(),
        start_line: 0,
        signature: None,
    }
}

fn matched(byte: u8, file: &str, qname: &str) -> Matched {
    Matched {
        id: id(byte),
        symbol: Some(facts(byte, file, qname)),
        location: file.to_string(),
        in_graph: true,
    }
}

fn candidate(byte: u8, qname: &str, file: &str, line: u32, score: i64) -> ScoredCandidate {
    ScoredCandidate {
        qualified_name: qname.to_string(),
        file_path: file.to_string(),
        line,
        kind: "function".to_string(),
        language: "rust".to_string(),
        score,
        reasons: vec![],
        symbol_ref: SymbolSelector {
            qualified_name: qname.to_string(),
            file_path: Some(file.to_string()),
            line: Some(line),
            kind: Some("function".to_string()),
            language: Some("rust".to_string()),
        },
        symbol_id: id(byte),
    }
}

fn ambiguous(qname: &str, first: (u8, &str), second: (u8, &str)) -> SymbolResolution {
    SymbolResolution::Ambiguous {
        candidates: vec![
            candidate(first.0, qname, first.1, 10, 100),
            candidate(second.0, qname, second.1, 20, 80),
        ],
        score_gap: 20,
    }
}

fn single(byte: u8, qname: &str, file: &str) -> SymbolResolution {
    SymbolResolution::Single {
        symbol_id: id(byte),
        resolved: ResolvedSymbol {
            qualified_name: qname.to_string(),
            file_path: file.to_string(),
            line: 10,
            kind: "function".to_string(),
            language: "rust".to_string(),
        },
    }
}

fn missing(qname: &str, suggestions: Vec<String>) -> SymbolResolution {
    SymbolResolution::NotFound { qname: qname.to_string(), suggestions }
}

#[test]
fn test_parse_edge_kind_all_valid() {
    let cases: &[(&str, EdgeKind)] = &[
        ("calls", EdgeKind::Calls),
        ("instantiates", EdgeKind::Instantiates),
        ("implements", EdgeKind::Implements),
        ("registers_callback", EdgeKind::RegistersCallback),
        ("references", EdgeKind::References),
        ("contains", EdgeKind::Contains),
        ("imports", EdgeKind::Imports),
        ("includes", EdgeKind::Includes),
        ("exports", EdgeKind::Exports),
        ("extends", EdgeKind::Extends),
        ("typeof", EdgeKind::TypeOf),
        ("returns", EdgeKind::Returns),
        ("overrides", EdgeKind::Overrides),
        ("decorates", EdgeKind::Decorates),
        ("defines", EdgeKind::Defines),
        ("argument", EdgeKind::Argument),
        ("parameter", EdgeKind::Parameter),
        ("assigns", EdgeKind::Assigns),
        ("reads", EdgeKind::Reads),
        ("writes", EdgeKind::Writes),
        ("field_read", EdgeKind::FieldRead),
        ("field_write", EdgeKind::FieldWrite),
    ];
    for (s, expected) in cases {
        let result = parse_edge_kind(s);
        assert!(result.is_ok(), "Expected Ok for '{}', got Err", s);
        assert_eq!(result.unwrap(), *expected, "Wrong EdgeKind for '{}'", s);
        assert_eq!(expected.as_str(), *s);
    }
}

#[test]
fn test_parse_edge_kind_invalid() {
    let cases = &["", "*", "unknown_edge", "Calls", "calls "];
    for s in cases {
        let result = parse_edge_kind(s);
        assert!(result.is_err(), "Expected Err for '{}', got Ok", s);
    }
}

#[test]
fn test_parse_edge_kind_imports() {
    assert_eq!(parse_edge_kind("imports"), Ok(EdgeKind::Imports));
    assert_eq!(parse_edge_kind("includes"), Ok(EdgeKind::Includes));
}

#[test]
fn test_parse_edge_kind_instantiates() {
    assert_eq!(parse_edge_kind("instantiates"), Ok(EdgeKind::Instantiates));
    assert_eq!(parse_edge_kind("registers_callback"), Ok(EdgeKind::RegistersCallback));
}

#[test]
fn edge_filters_have_defaults() {
    assert_eq!(
        default_call_edges(),
        vec![EdgeKind::Calls, EdgeKind::Instantiates, EdgeKind::Implements]
    );
    assert_eq!(default_path_edges().last(), Some(&EdgeKind::RegistersCallback));
    assert_eq!(default_impact_edges().last(), Some(&EdgeKind::Includes));
    assert_eq!(resolve_call_edge_kinds(&json("{}")), Ok(default_call_edges()));
    assert_eq!(resolve_call_edge_kinds(&json(r#"{"edge_kinds": ["*"]}"#)), Ok(vec![]));
    assert_eq!(
        resolve_call_edge_kinds(&json(r#"{"edge_kinds": ["reads", "writes"]}"#)),
        Ok(vec![EdgeKind::Reads, EdgeKind::Writes])
    );
    assert_eq!(resolve_path_edge_kinds(&json("{}")), Ok(Some(default_path_edges())));
    assert_eq!(resolve_path_edge_kinds(&json(r#"{"edge_kinds": ["*"]}"#)), Ok(None));
    assert!(is_allowed_edge(EdgeKind::Reads, &vec![]));
    assert!(!is_allowed_edge(EdgeKind::Reads, &vec![EdgeKind::Calls]));
}

#[test]
fn test_handle_impact_missing_symbol_argument() {
    let refused = plan_impact(&json("{}"), Err("symbol is required".to_string()), MAX_NAME);
    assert_eq!(refused.err(), Some("symbol is required".to_string()));
}

#[test]
fn test_handle_impact_invalid_edge_kind_string() {
    let error = plan_impact(
        &json(r#"{"symbol": "anything", "edge_kinds": ["nonexistent_edge"]}"#),
        named("anything"),
        MAX_NAME,
    )
    .err()
    .expect("expected error for invalid edge kind");
    let lower = error.to_lowercase();
    assert!(
        lower.contains("unknown edge kind") || lower.contains("nonexistent"),
        "error should mention invalid edge kind, got: {}",
        error
    );
}

#[test]
fn test_handle_impact_mixed_wildcard_returns_error() {
    let error = plan_impact(
        &json(r#"{"symbol": "anything", "edge_kinds": ["*", "calls"]}"#),
        named("anything"),
        MAX_NAME,
    )
    .err()
    .expect("expected error for mixed wildcard");
    assert!(error.contains("must be the only value"), "error message mismatch: {}", error);
}

#[test]
fn test_handle_impact_edge_kinds_not_array() {
    let refused = plan_impact(
        &json(r#"{"symbol": "anything", "edge_kinds": "calls"}"#),
        named("anything"),
        MAX_NAME,
    );
    assert!(refused.is_err(), "expected error for non-array edge_kinds");
}

#[test]
fn test_handle_impact_direction_defaults_to_outgoing() {
    let plan = plan_impact(&json(r#"{"symbol": "nonexistent"}"#), named("nonexistent"), MAX_NAME)
        .expect("a plan");
    assert_eq!(plan.direction, TraversalDirection::Outgoing);
    assert_eq!(plan.direction_name, "outgoing");
    assert_eq!(plan.depth, 3);
}

#[test]
fn test_handle_impact_accepts_outgoing_direction() {
    let plan = plan_impact(
        &json(r#"{"symbol": "nonexistent", "direction": "outgoing"}"#),
        named("nonexistent"),
        MAX_NAME,
    )
    .expect("a plan");
    assert_eq!(plan.direction, TraversalDirection::Outgoing);
}

#[test]
fn test_handle_impact_accepts_incoming_direction() {
    let plan = plan_impact(
        &json(r#"{"symbol": "nonexistent", "direction": "incoming"}"#),
        named("nonexistent"),
        MAX_NAME,
    )
    .expect("a plan");
    assert_eq!(plan.direction, TraversalDirection::Incoming);
}

#[test]
fn test_handle_impact_accepts_both_direction() {
    let plan = plan_impact(
        &json(r#"{"symbol": "nonexistent", "direction": "both"}"#),
        named("nonexistent"),
        MAX_NAME,
    )
    .expect("a plan");
    assert_eq!(plan.direction, TraversalDirection::Both);
}

#[test]
fn test_handle_impact_with_direction_param() {
    let plan = plan_impact(
        &json(r#"{"symbol": "test_func", "direction": "both", "depth": 2}"#),
        named("test_func"),
        MAX_NAME,
    )
    .expect("direction='both' should be accepted");
    assert_eq!(plan.search_depth(), 2);
    match impact_roots(&missing("test_func", vec![]), "test_func") {
        Roots::Missing { qname, detail } => {
            assert_eq!(qname, "test_func");
            assert_eq!(detail, "impact requires the root symbol to be materialized first");
        },
        _ => panic!("an unknown symbol may be asked for again"),
    }
}

#[test]
fn test_handle_impact_invalid_direction_returns_error() {
    let error = plan_impact(
        &json(r#"{"symbol": "anything", "direction": "sideways"}"#),
        named("anything"),
        MAX_NAME,
    )
    .err()
    .expect("expected error for invalid direction");
    assert!(
        error.contains("direction must be"),
        "error should mention valid directions, got: {}",
        error
    );
}

fn impact_node(file_id: &str, file: &str, name: &str) -> ImpactNode {
    ImpactNode {
        file_id: file_id.to_string(),
        file: file.to_string(),
        name: name.to_string(),
        qualified_name: name.to_string(),
        kind_name: "function".to_string(),
        line: 1,
    }
}

#[test]
fn test_handle_impact_response_has_direction() {
    let plan =
        plan_impact(&json(r#"{"symbol": "f", "direction": "both"}"#), named("f"), MAX_NAME)
            .expect("a plan");
    let meta = build_resolution_meta_for_path(&single(1, "f", "test.ts"));
    let body = to_value(&impact_body("f", &plan, &vec![], &meta, &None, true));
    assert_eq!(body["direction"], "both");
    assert_eq!(body["symbol"], "f");
}

#[test]
fn impact_groups_symbols_by_file() {
    let plan = plan_impact(&json(r#"{"symbol": "f"}"#), named("f"), MAX_NAME).expect("a plan");
    let meta = build_resolution_meta_for_path(&single(1, "f", "test.ts"));
    let nodes = vec![
        impact_node("1", "a.ts", "a"),
        impact_node("2", "b.ts", "b"),
        impact_node("1", "a.ts", "c"),
    ];
    let text = json_to_string(&impact_body("f", &plan, &nodes, &meta, &None, true));
    assert_eq!(text.matches("\"a.ts\"").count(), 1, "{}", text);
    assert_eq!(text.matches("\"b.ts\"").count(), 1, "{}", text);
    assert!(text.contains("\"c\""));
}

#[test]
fn impact_depth_is_bounded() {
    let plan = plan_impact(&json(r#"{"symbol": "f", "depth": 99}"#), named("f"), MAX_NAME)
        .expect("a plan");
    assert_eq!(plan.depth, 99);
    assert_eq!(plan.search_depth(), 5);
}

#[test]
fn test_handle_callees_response_omits_internal_precision() {
    let meta = build_resolution_meta_for_path(&single(1, "g", "test.ts"));
    let body = to_value(&callees_body("g", vec![], 20, vec![], 0, &meta, 1, true));
    assert!(body.get("precision").is_none());
    assert_eq!(body["symbol"], "g");
}

#[test]
fn test_handle_callers_response_omits_internal_precision() {
    let meta = build_resolution_meta_for_path(&single(1, "h", "test.ts"));
    let body = to_value(&callers_body("h", vec![], 20, &meta, 1, true));
    assert!(body.get("precision").is_none());
    assert!(body.get("note").is_none());
    let partial = to_value(&callers_body("h", vec![], 20, &meta, 2, false));
    assert!(partial["note"].as_str().is_some_and(|note| note.contains("focus closure")));
    assert!(partial.get("resolution").is_some());
}

fn entry(symbol: &SymbolFacts) -> CallEntry {
    CallEntry { id: symbol.symbol_id, node: Some(symbol_json(symbol)) }
}

#[test]
fn test_aggregate_dedup_calls() {
    // One symbol calls both of the symbols that the name stands for.
    let resolution = ambiguous("target", (1, "src/a.ts"), (2, "src/b.ts"));
    let (ids, meta) = match calls_roots(&resolution, "target", CallSide::Incoming) {
        Roots::Found { ids, meta } => (ids, meta),
        _ => panic!("the name stands for two symbols"),
    };
    assert_eq!(ids.len(), 2);
    let shared = facts(3, "src/caller.ts", "shared_caller");
    let listed = collect_calls(
        &vec![
            RootCalls { direct: vec![entry(&shared)], candidates: vec![] },
            RootCalls { direct: vec![entry(&shared)], candidates: vec![] },
        ],
        true,
    );
    let resp = to_value(&callers_body("target", listed, 20, &meta, ids.len(), true));
    let total = resp["total_callers"].as_u64().expect("should have total_callers");
    let callers = resp["callers"].as_array().expect("should have callers array");
    assert_eq!(total, 1, "total_callers should be 1 after dedup");
    assert_eq!(callers.len(), 1);
    let caller = &callers[0];
    assert_eq!(caller["qualified_name"].as_str().unwrap(), "shared_caller");
    assert!(caller["file"].as_str().unwrap().contains("caller.ts"));
}

#[test]
fn unconfirmed_calls_count_only_without_a_full_index() {
    let direct = facts(3, "a.ts", "direct");
    let unconfirmed = facts(4, "b.ts", "unconfirmed");
    let roots = || {
        vec![RootCalls { direct: vec![entry(&direct)], candidates: vec![entry(&unconfirmed)] }]
    };
    assert_eq!(collect_calls(&roots(), true).len(), 1);
    assert_eq!(collect_calls(&roots(), false).len(), 2);
}

#[test]
fn callers_depth_param_emits_not_honored_warning() {
    let plan = plan_calls(
        &json(r#"{"symbol": "depth_target", "depth": 5}"#),
        named("depth_target"),
        CallSide::Incoming,
        vec![],
        MAX_NAME,
    )
    .expect("a plan");
    let warnings = callers_warnings(plan.warnings, true);
    assert!(
        warnings
            .iter()
            .any(|s| s.contains("depth is not honored") && s.contains("direction=incoming")),
        "expected depth-not-honored warning"
    );
    assert_eq!(plan.limit, 20);
}

#[test]
fn callees_with_depth_gt_1_still_one_hop_only() {
    let plan = plan_calls(
        &json(r#"{"symbol": "chain_a", "depth": 5}"#),
        named("chain_a"),
        CallSide::Outgoing,
        vec![],
        MAX_NAME,
    )
    .expect("a plan");
    let next = facts(2, "src/b.ts", "chain_b");
    let listed =
        collect_calls(&vec![RootCalls { direct: vec![entry(&next)], candidates: vec![] }], true);
    let meta = build_resolution_meta_for_path(&single(1, "chain_a", "src/a.ts"));
    let resp =
        to_value(&callees_body("chain_a", listed, plan.limit, vec![], 0, &meta, 1, true));
    let callees = resp["callees"].as_array().expect("callees array");
    assert_eq!(callees.len(), 1);
    assert_eq!(callees[0]["qualified_name"], "chain_b");
    assert!(!callees.iter().any(|n| n["qualified_name"] == "chain_c"));
    let warnings = callees_warnings(plan.warnings, 0, true);
    assert!(
        warnings
            .iter()
            .any(|s| s.contains("depth is not honored") && s.contains("direction=outgoing")),
        "expected depth warning on callees"
    );
}

#[test]
fn callers_include_signature_from_store() {
    let mut caller = facts(2, "src/caller.ts", "sig_caller");
    caller.signature = Some("fn sig_caller() -> i32".to_string());
    let listed =
        collect_calls(&vec![RootCalls { direct: vec![entry(&caller)], candidates: vec![] }], true);
    let meta = build_resolution_meta_for_path(&single(1, "sig_target", "src/tgt.ts"));
    let resp = to_value(&callers_body("sig_target", listed, 20, &meta, 1, true));
    let callers = resp["callers"].as_array().expect("callers");
    assert_eq!(callers.len(), 1);
    assert_eq!(callers[0]["signature"].as_str(), Some("fn sig_caller() -> i32"));
}

#[test]
fn calls_invalid_include_roots_returns_warning() {
    let plan = plan_calls(
        &json(
            r#"{
                "symbol": "warned_callee",
                "direction": "incoming",
                "include_roots": ["/absolute/rejected"]
            }"#,
        ),
        named("warned_callee"),
        CallSide::Incoming,
        vec!["include_roots: absolute path rejected".to_string()],
        MAX_NAME,
    )
    .expect("a plan");
    assert!(callers_warnings(plan.warnings, true)
        .iter()
        .any(|warning| warning.contains("absolute path rejected")));
}

#[test]
fn long_symbol_names_are_refused() {
    assert!(validate_symbol_name_length("abc", 3).is_ok());
    assert_eq!(
        validate_symbol_name_length("abcd", 3),
        Err("Symbol name exceeds maximum length of 3 characters".to_string())
    );
    assert!(plan_calls(&json("{}"), named("abcd"), CallSide::Incoming, vec![], 3).is_err());
    assert!(plan_call_graph(&json("{}"), named("abcd"), 3).is_err());
    assert!(plan_explore(&json("{}"), named("abcd"), 3).is_err());
    assert!(plan_path(&json("{}"), named("abcd"), named("a"), 3).is_err());
}

#[test]
fn call_graph_requests_have_defaults() {
    let plan = plan_call_graph(&json("{}"), named("f"), MAX_NAME).expect("a plan");
    assert_eq!(plan.depth, 3);
    assert_eq!(plan.limit, 100);
    assert_eq!(plan.edge_kinds, default_call_edges());
    match call_graph_roots(&missing("f", vec![]), "f") {
        Roots::Missing { detail, .. } => assert_eq!(
            detail,
            "callgraph traversal requires the root symbol to be materialized first"
        ),
        _ => panic!("an unknown symbol may be asked for again"),
    }
}

#[test]
fn unconfirmed_edges_lead_to_symbols() {
    let edges = vec![
        CandidateEdge {
            kind: "calls".to_string(),
            source: vec![1; 32],
            target: Some(vec![2; 32]),
        },
        CandidateEdge { kind: "reads".to_string(), source: vec![3; 32], target: None },
        CandidateEdge { kind: "calls".to_string(), source: vec![1; 4], target: None },
    ];
    let allowed = default_call_edges();
    assert_eq!(candidate_outgoing_neighbors(&edges, &allowed), vec![id(2)]);
    assert_eq!(candidate_incoming_neighbors(&edges, &allowed), vec![id(1)]);
    assert_eq!(candidate_incoming_neighbors(&edges, &vec![]), vec![id(1), id(3)]);
}

#[test]
fn explore_unique_symbol_returns_dossier() {
    let mut dossier = JsonObject::new();
    dossier.put("subject", json(r#"{"name": "myfunc"}"#));
    dossier.put("precisionTier", Json::text("tier0"));
    let resp = to_value(&dossier_body(dossier, None));
    assert!(resp.get("subject").is_some());
    assert!(resp.get("precisionTier").is_none());
    assert!(resp.get("resolution").is_none());
    let mut other = JsonObject::new();
    other.put("subject", Json::Null);
    let resolved = to_value(&dossier_body(other, Some(Json::text("myfunc"))));
    assert_eq!(resolved["resolution"]["policy"], "unique_or_candidates");
    assert_eq!(resolved["resolution"]["resolved"], "myfunc");
}

#[test]
fn explore_ambiguous_symbol_returns_list() {
    let candidates = vec![
        candidate(1, "shared_func", "a.ts", 1, 100),
        candidate(2, "shared_func", "b.ts", 1, 100),
        candidate(3, "shared_func", "c.ts", 1, 100),
    ];
    let resp = to_value(&ambiguous_body("shared_func", &candidates, 0));
    assert_eq!(resp["ambiguous"], true);
    let listed = resp["candidates"].as_array().expect("should have candidates array");
    assert_eq!(listed.len(), 3);
    assert_eq!(listed[1]["file_path"], "b.ts");
    assert_eq!(listed[1]["symbol_ref"]["file_path"], "b.ts");
}

#[test]
fn explore_accepts_source_lines_param() {
    let plan = plan_explore(
        &json(r#"{"symbol": "myfunc2", "source_lines": 10}"#),
        named("myfunc2"),
        MAX_NAME,
    )
    .expect("source_lines is accepted");
    assert_eq!(plan.source_lines, 10);
}

#[test]
fn explore_accepts_evidence_limit_param() {
    let plan = plan_explore(
        &json(r#"{"symbol": "myfunc3", "evidence_limit": 5}"#),
        named("myfunc3"),
        MAX_NAME,
    )
    .expect("evidence_limit is accepted");
    assert_eq!(plan.evidence_limit, 5);
}

#[test]
fn explore_source_modes() {
    assert_eq!(parse_source_mode(&json(r#"{"source_mode": "full"}"#)), SourceMode::Full);
    assert_eq!(parse_source_mode(&json(r#"{"source_mode": "none"}"#)), SourceMode::Nothing);
    assert_eq!(parse_source_mode(&json("{}")), SourceMode::Excerpt);
}

#[test]
fn explore_not_found_without_candidates_returns_terminal_gap() {
    let args = json(r#"{"symbol": "missing_func"}"#);
    let envelope: AnalysisEnvelope<u32> =
        AnalysisEnvelope::new("q_1".to_string(), "explore", &args);
    let body = unknown_body("missing_func", &vec![], &None, &vec![]);
    let built = unknown_envelope(envelope, "missing_func", false).build(body, 0);
    assert!(!built.is_error);
    let resp: serde_json::Value = serde_json::from_str(&built.text).unwrap();
    assert_eq!(resp["status"], "unresolved");
    assert!(resp["analysis"].get("retry_after_ms").is_none(), "{}", resp);
    assert!(resp.get("query_id").is_some(), "missing query_id: {}", resp);
    assert!(resp.get("retry_after_ms").is_none(), "{}", resp);
    assert!(
        resp["gaps"]
            .as_array()
            .is_some_and(|gaps| gaps.iter().any(|gap| gap["reason"] == "symbol_not_materialized")),
        "terminal unresolved response must expose its gap: {}",
        resp
    );
    assert!(resp.get("partial_result").is_none());
    assert!(resp.get("background_refinement").is_none());
    assert!(resp.get("work").is_none());
}

#[test]
fn explore_not_found_with_started_jobs_is_retried() {
    let args = json(r#"{"symbol": "missing_func"}"#);
    let envelope: AnalysisEnvelope<u32> =
        AnalysisEnvelope::new("q_1".to_string(), "explore", &args);
    let body = unknown_body("missing_func", &vec![], &None, &vec!["src/a.rs".to_string()]);
    let built = unknown_envelope(envelope, "missing_func", true).build(body, 0);
    let resp: serde_json::Value = serde_json::from_str(&built.text).unwrap();
    assert_eq!(resp["analysis"]["retry_after_ms"], 2000);
}

#[test]
fn exact_names_win_in_a_scope() {
    let hits = vec![facts(1, "src/a.ts", "ns.other"), facts(2, "src/b.ts", "ns.foo")];
    match scoped_explore_resolution(&hits, "ns.foo", "src") {
        SymbolResolution::Single { symbol_id, resolved } => {
            assert_eq!(symbol_id, id(2));
            assert_eq!(resolved.file_path, "src/b.ts");
            assert_eq!(resolved.line, 1);
        },
        _ => panic!("one symbol has the name"),
    }
    let twice = vec![facts(1, "src/a.ts", "ns.foo"), facts(2, "src/b.ts", "ns.foo")];
    match scoped_explore_resolution(&twice, "foo", "src") {
        SymbolResolution::Ambiguous { candidates, .. } => {
            assert_eq!(candidates.len(), 2);
            assert_eq!(candidates[0].score, 9_000);
            assert_eq!(candidates[0].reasons, vec!["scope:src".to_string()]);
        },
        _ => panic!("two symbols have the name"),
    }
    assert!(matches!(
        scoped_explore_resolution(&vec![], "foo", "src"),
        SymbolResolution::NotFound { .. }
    ));
}

#[test]
fn explore_failures_say_why() {
    assert_eq!(
        failure_text(&ExploreFailure::NotStored, "f", "!"),
        "Symbol not found in store: f!"
    );
    assert_eq!(
        failure_text(&ExploreFailure::LookupFailed("x".to_string()), "f", ""),
        "Lookup error: x"
    );
}

#[test]
fn max_ambiguous_candidates_is_5() {
    assert_eq!(MAX_AMBIGUOUS_CANDIDATES, 5);
}

#[test]
fn ambiguity_includes_candidates_when_multiple() {
    let c = to_value(&candidate_json(&Some(facts(1, "src/a.ts", "ns.foo")), true));
    assert_eq!(c["qualified_name"], "ns.foo");
    assert_eq!(c["selected"], true);
    assert!(c["file"].as_str().unwrap().contains("a.ts"));
    assert_eq!(c["symbol_ref"]["qualified_name"], "ns.foo");
    assert_eq!(c["symbol_ref"]["file_path"], "src/a.ts");
    assert_eq!(to_value(&candidate_json(&None, false))["qualified_name"], "unknown");

    let c2 = to_value(&candidate_json(&Some(facts(2, "src/b.ts", "ns.foo")), false));
    assert_eq!(c2["qualified_name"], "ns.foo");
    assert_eq!(c2["selected"], false);
    assert!(c2["file"].as_str().unwrap().contains("b.ts"));
}

fn summary(qname: &str) -> JsonObject {
    let mut object = JsonObject::new();
    object.put("qualified_name", Json::text(qname));
    object
}

fn node(qname: &str) -> PathNode {
    PathNode {
        qualified_name: qname.to_string(),
        summary: summary(qname),
        source: None,
        incoming: vec![(EdgeKind::RegistersCallback, "table".to_string())],
    }
}

fn ranked() -> RankedPath {
    RankedPath {
        nodes: vec![node("sender"), node("receiver")],
        steps: vec![PathStep {
            kind: EdgeKind::Calls,
            direction: "outgoing".to_string(),
            confidence: json("1.0"),
        }],
        breakpoints: vec![Breakpoint {
            kind: "test".to_string(),
            edge_index: 0,
            message: "m".to_string(),
        }],
        confidence: json("0.5"),
        total_weight: json("1.5"),
        test_hops: 0,
        indirect_hops: 0,
        scores: PathScores {
            overall: json("0.5"),
            semantic: json("0.5"),
            topology: json("0.5"),
            centrality: json("0.5"),
        },
    }
}

#[test]
fn test_path_multi_pair_exhaustive() {
    let from_resolution = ambiguous("sender", (1, "src/a.ts"), (2, "src/b.ts"));
    let to_resolution = ambiguous("receiver", (3, "src/c.ts"), (4, "src/d.ts"));
    let from = vec![matched(1, "src/a.ts", "sender"), matched(2, "src/b.ts", "sender")];
    let to = vec![matched(3, "src/c.ts", "receiver"), matched(4, "src/d.ts", "receiver")];

    // Every pair is tried, in order.
    let mut pairs = Vec::new();
    let mut start = (0, 0);
    while let Some(pair) = next_pair(&from, &to, false, start) {
        pairs.push(pair);
        start = (pair.0, pair.1 + 1);
    }
    assert_eq!(pairs, vec![(0, 0), (0, 1), (1, 0), (1, 1)]);

    let resp = to_value(&path_body(
        "sender",
        "receiver",
        &vec![ranked()],
        false,
        &from,
        &to,
        (0, 0),
        &from_resolution,
        &to_resolution,
        PathQuality::Direct,
        &vec![],
    ));
    assert!(resp["path"].as_array().is_some_and(|a| !a.is_empty()), "{}", resp);
    let ambiguity = resp.get("ambiguity").expect("should have ambiguity field");
    assert_eq!(ambiguity["from_count"].as_u64().unwrap(), 2);
    assert_eq!(ambiguity["to_count"].as_u64().unwrap(), 2);
    let from_cands = ambiguity["from_candidates"].as_array().expect("from_candidates");
    assert_eq!(from_cands.len(), 2);
    let to_cands = ambiguity["to_candidates"].as_array().expect("to_candidates");
    assert_eq!(to_cands.len(), 2);
    assert_eq!(ambiguity["from_resolution"]["count"].as_u64().unwrap(), 2);
    assert_eq!(ambiguity["to_resolution"]["count"].as_u64().unwrap(), 2);
    assert!(from_cands.iter().any(|c| c["selected"] == true));
    assert!(to_cands.iter().any(|c| c["selected"] == true));
    assert!(ambiguity.get("matched_from").is_some());
    assert!(ambiguity.get("matched_to").is_some());
    assert!(ambiguity["selection_note"].as_str().is_some_and(|s| s.contains("pair")));
}

#[test]
fn pairs_skip_symbols_outside_the_graph_and_themselves() {
    let mut outside = matched(1, "a.ts", "f");
    outside.in_graph = false;
    let from = vec![outside, matched(2, "b.ts", "f")];
    let to = vec![matched(2, "b.ts", "f"), matched(3, "c.ts", "f")];
    assert_eq!(next_pair(&from, &to, true, (0, 0)), Some((1, 1)));
    assert_eq!(next_pair(&from, &to, false, (0, 0)), Some((1, 0)));
    assert_eq!(next_pair(&from, &to, true, (1, 2)), None);
}

#[test]
fn weak_paths_come_with_an_explanation() {
    let from = vec![matched(1, "src/a.ts", "sender")];
    let to = vec![matched(3, "src/c.ts", "receiver")];
    let resp = to_value(&path_body(
        "sender",
        "receiver",
        &vec![ranked(), ranked()],
        false,
        &from,
        &to,
        (0, 0),
        &single(1, "sender", "src/a.ts"),
        &single(3, "receiver", "src/c.ts"),
        PathQuality::Fallback,
        &vec![
            FrontierNode { qname: "stuck".to_string(), depth: 2, outgoing_call_count: 0 },
            FrontierNode { qname: "free".to_string(), depth: 2, outgoing_call_count: 3 },
        ],
    ));
    assert!(resp.get("ambiguity").is_none());
    assert_eq!(resp["alternatives"].as_array().map(|a| a.len()), Some(1));
    let quality = &resp["path_quality"];
    assert_eq!(quality["quality"], "fallback");
    assert_eq!(quality["fp_boundaries"][0]["at"], "table");
    assert_eq!(quality["fp_boundaries"][0]["registers"], "sender");
    assert_eq!(quality["blocked_at"]["nodes"].as_array().map(|a| a.len()), Some(1));
    assert_eq!(quality["blocked_at"]["nodes"][0]["qname"], "stuck");
    assert!(quality["action"].as_str().is_some_and(|s| s.contains("fp_dispatches")));
}

#[test]
fn endpoints_that_stand_for_one_symbol_have_no_label() {
    let mut last_line = matched(1, "src/a.ts", "sender");
    last_line.symbol.as_mut().expect("facts").start_line = u32::MAX;
    let from = vec![last_line];
    let to = vec![matched(3, "src/c.ts", "receiver"), matched(4, "src/d.ts", "receiver")];
    let resp = to_value(&path_body(
        "sender",
        "receiver",
        &vec![ranked()],
        false,
        &from,
        &to,
        (0, 1),
        &single(1, "sender", "src/a.ts"),
        &ambiguous("receiver", (3, "src/c.ts"), (4, "src/d.ts")),
        PathQuality::Direct,
        &vec![],
    ));
    let ambiguity = &resp["ambiguity"];
    assert!(ambiguity.get("matched_from").is_none());
    assert_eq!(ambiguity["matched_to"], "src/d.ts:1");
}

#[test]
fn hops_alternate_between_symbols_and_edges() {
    let hops = to_value(&build_hops(&ranked(), false));
    let hops = hops.as_array().expect("hops");
    assert_eq!(hops.len(), 3);
    assert_eq!(hops[0]["qualified_name"], "sender");
    assert_eq!(hops[2]["qualified_name"], "receiver");
}

#[test]
fn path_ambiguous_no_path_uses_message_without_hint_field() {
    let from = vec![matched(1, "src/a.ts", "sender"), matched(2, "src/b.ts", "sender")];
    let to = vec![matched(3, "src/c.ts", "receiver"), matched(4, "src/d.ts", "receiver")];
    let search = FruitlessSearch {
        max_depth: 5,
        direction: TraversalDirection::Outgoing,
        full_index: false,
        from_kind: Some(EndpointKind {
            kind: SymbolKind::Function,
            name: "function".to_string(),
        }),
        to_kind: Some(EndpointKind { kind: SymbolKind::Other, name: "class".to_string() }),
        frontier: Frontier {
            nodes: vec![FrontierNode {
                qname: "n".to_string(),
                depth: 1,
                outgoing_call_count: 0,
            }],
            depth_reached: 1,
        },
    };
    let resp = to_value(&no_path_body("sender", "receiver", &from, &to, &search));
    assert!(resp.get("hint").is_none(), "{}", resp);
    let message = resp["message"].as_str().expect("a message");
    assert!(message.contains("SymbolSelector"), "{}", message);
    assert!(
        message.starts_with("No path found within max_depth=5 (tried 4 SymbolId pairs)"),
        "{}",
        message
    );
    assert!(message.contains("target is not a callable"), "{}", message);
    assert_eq!(no_path_warnings(vec![], true).len(), 0);
    assert_eq!(no_path_warnings(vec![], false).len(), 1);
}

fn unresolved(name: &str, file: &str, start_line: u32) -> UnresolvedCall {
    UnresolvedCall {
        name: name.to_string(),
        text: name.to_string(),
        file_id: file.to_string(),
        file: file.to_string(),
        start_line,
        start_column: 8,
    }
}

#[test]
fn path_not_found_target_reports_unresolved_call_hint() {
    let calls = vec![unresolved("copy_from_user", "src/a.ts", 4)];
    let hint = unresolved_call_target_hint(&calls, "copy_from_user");
    let text = hint.clone().expect("a hint");
    assert!(
        text.contains("unresolved call token") && text.contains("calls(direction=\"outgoing\")"),
        "missing actionable unresolved-call hint: {}",
        text
    );
    assert!(text.contains("src/a.ts:5:8"), "{}", text);
    match target_endpoint(&missing("copy_from_user", vec![]), "copy_from_user", hint) {
        Endpoint::Missing { qname, detail } => {
            assert_eq!(qname, "copy_from_user");
            assert!(detail.contains("unresolved call token"), "{}", detail);
        },
        _ => panic!("an unknown target may be asked for again"),
    }
    assert_eq!(unresolved_call_target_hint(&calls, "memcpy"), None);
}

#[test]
fn unresolved_calls_are_listed_once_in_order() {
    let calls = vec![
        unresolved("b", "z.c", 1),
        unresolved("a", "a.c", 7),
        unresolved("a", "a.c", 7),
        unresolved("c", "a.c", 2),
    ];
    let (listed, total) = unresolved_call_refs_json(&calls, 2);
    assert_eq!(total, 3);
    assert_eq!(listed.len(), 2);
    assert_eq!(to_value(&listed[0])["name"], "c");
    assert_eq!(to_value(&listed[1])["name"], "a");
}

#[test]
fn unresolved_calls_of_a_target_are_listed() {
    let calls = vec![
        unresolved("lib::copy", "z.c", 1),
        unresolved("other", "a.c", 7),
        unresolved("copy", "a.c", 2),
        unresolved("ops.copy", "b.c", 0),
    ];
    let (listed, total) = unresolved_call_refs_json_filtered(&calls, 2, Some(" copy "));
    assert_eq!(total, 3);
    assert_eq!(listed.len(), 2);
    assert_eq!(to_value(&listed[0])["name"], "copy");
    assert_eq!(to_value(&listed[0])["line"], 3);
    assert_eq!(to_value(&listed[1])["name"], "ops.copy");
    assert_eq!(unresolved_call_refs_json_filtered(&calls, 9, Some(" ")).1, 4);
    assert_eq!(unresolved_call_refs_json_filtered(&calls, 9, None).1, 4);
}

#[test]
fn path_requests_have_defaults() {
    let plan = plan_path(&json("{}"), named("a"), named("b"), MAX_NAME).expect("a plan");
    assert_eq!(plan.direction, TraversalDirection::Outgoing);
    assert_eq!(plan.edge_kinds, Some(default_path_edges()));
    let deep = plan_path(&json(r#"{"max_depth": 50}"#), named("a"), named("b"), MAX_NAME)
        .expect("a plan");
    assert_eq!(deep.search_depth(), 10);
    assert_eq!(
        resolve_path_direction(&json(r#"{"direction": "both"}"#)),
        TraversalDirection::Both
    );
    assert_eq!(
        resolve_path_direction(&json(r#"{"direction": "sideways"}"#)),
        TraversalDirection::Outgoing
    );
    match source_endpoint(&missing("a", vec![]), "a") {
        Endpoint::Missing { detail, .. } => {
            assert_eq!(detail, "path requires the source symbol to be materialized first")
        },
        _ => panic!("an unknown source may be asked for again"),
    }
    assert_eq!(symbol_label(&matched(1, "src/a.ts", "f")), "src/a.ts:1");
}

#[test]
fn resolution_helper_single_returns_id_and_meta() {
    let resolution = single(1, "foo", "src/lib.rs");
    let (ids, meta) = resolution_to_symbol_ids_and_meta(&resolution, "foo").unwrap();
    assert_eq!(ids, vec![id(1)]);
    assert!(meta.is_object());
}

#[test]
fn resolution_helper_ambiguous_uses_direct_symbol_id() {
    let resolution = ambiguous("foo", (1, "a.rs"), (2, "b.rs"));
    let (ids, meta) = resolution_to_symbol_ids_and_meta(&resolution, "foo").unwrap();
    assert_eq!(ids, vec![id(1), id(2)]);
    assert!(meta.is_object());
    assert_eq!(to_value(&meta)["count"], 2);
}

#[test]
fn resolution_helper_not_found_returns_error() {
    let resolution = missing("missing_fn", vec!["other_fn".to_string()]);
    let err = resolution_to_symbol_ids_and_meta(&resolution, "missing_fn").err().unwrap();
    assert!(err.contains("not found"));
    assert!(err.contains("other_fn"));
    assert_eq!(not_found_resolution_qname(&resolution), Some("missing_fn"));
    assert!(needs_focus_retry(&resolution));
    assert!(!needs_focus_retry(&single(1, "foo", "a.rs")));
}

#[test]
fn resolution_to_symbol_ids_uses_direct_symbol_id() {
    let resolution = ambiguous("test_fn", (1, "src/a.rs"), (2, "src/b.rs"));
    let (ids, _) = resolution_to_symbol_ids_and_meta(&resolution, "test_fn").unwrap();
    assert_eq!(ids, vec![id(1), id(2)]);
}

#[test]
fn callable_kinds() {
    assert!(is_callable_kind(SymbolKind::Function));
    assert!(is_callable_kind(SymbolKind::Method));
    assert!(is_callable_kind(SymbolKind::Constructor));
    assert!(!is_callable_kind(SymbolKind::Field));
    assert!(!is_callable_kind(SymbolKind::Other));
}

#[test]
fn empty_context_does_not_panic_on_report_progress() {
    // A context without a progress channel has nothing to report to.
}

#[test]
fn execution_context_new_accepts_none() {
    let has_none_task_id: Option<String> = None;
    let has_none_progress: Option<(f64, Option<f64>, Option<String>)> = None;
    assert!(has_none_task_id.is_none());
    assert!(has_none_progress.is_none());
}

#[test]
fn handler_purity_allowlist_only_shrinks_documented() {
    let allowlist: [&str; 3] = ["mod.rs", "annotations.rs", "active_project.rs"];
    assert!(allowlist.len() <= 8);
    assert!(!allowlist.contains(&"lifecycle.rs"));
    assert!(!allowlist.contains(&"branch_diff.rs"));
    assert!(!allowlist.contains(&"graph.rs"));
    assert!(allowlist.len() <= 3);
}
