use atlas_mcp::json::Json;
use atlas_mcp::json_text::{
    from_value, json_to_string, json_to_string_pretty, parse_json, same_json, to_value,
};
use atlas_mcp::task_manager::{
    gen_task_id, Percent, TaskManager, TaskStatus, FULL_PERCENT_BITS,
};
use atlas_mcp::text::{
    comes_before, contains_text, join_texts, push_decimal, push_decimal_wide, split_lines,
    text_after_last, text_bytes, trim,
};
use atlas_mcp::tools::analysis_envelope::{QuerySnapshot, QueryStatus};
use atlas_mcp::tools::annotations::{
    annotation_body, annotation_id, annotation_of_field, check_dispatch, deletion_body,
    deletion_step, dispatch_end, field_name_of, list_annotations_body, plan_annotation,
    plan_annotation_deletion, AnnotationKey, AnnotationOutcome, DeletionOutcome, DeletionStep,
    DeletionWork, DispatchEnd, DispatchSymbol, Language, StoredAnnotation,
};
use atlas_mcp::tools::async_state::AsyncState;
use atlas_mcp::tools::atlas_jobs::{
    atlas_jobs_body, query_failures, query_state, tasks_body, AwaitedJob, JobCounts, JobRow,
    QueryProgress, WatchedFailure,
};
use atlas_mcp::tools::call_graph::{call_graph_body, read_ways, CodeGraph, GraphNode, Neighbor};
use atlas_mcp::tools::capability::{language_capabilities_body, LanguageProfile};
use atlas_mcp::tools::context::{
    ambiguous_context_body, build_context_response, plan_context, resolve_context_symbol,
    stored_context_args, CallDetail, ContextAction, ContextEvent, ContextPhase, ContextView,
};
use atlas_mcp::tools::domain_rules::{
    delete_reply, learn_reply, list_rules_reply, plan_rule, plan_rule_action, save_reply,
    RuleAction, RuleCandidate, RuleRow,
};
use atlas_mcp::tools::edges::EdgeKind;
use atlas_mcp::tools::file_deps::{
    check_file_lookup, clean_path, connected_symbols, dependencies_body, dependents_body,
    edge_budget, manifest_both_body, manifest_edge_dependencies, manifest_edge_dependents,
    manifest_side, plan_file_dependencies, structural_body, structural_summary, DependencySide,
    DependentRow, ForeignSymbol, ImportRow, SymbolEdge,
};
use atlas_mcp::tools::index::{
    append_warning, background_body, finish_background_index, finish_index, index_error_result,
    lock_failure, progress_report, read_index_request, IndexEvent, IndexStats,
};
use atlas_mcp::tools::lazy_refresh::{FileId, LazyRefreshQueue};
use atlas_mcp::tools::symbols::{
    ResolvedSymbol, ScoredCandidate, SymbolFacts, SymbolId, SymbolInput, SymbolKind,
    SymbolResolution, SymbolSelector,
};

fn json(text: &str) -> Json {
    parse_json(text).expect("JSON text")
}

fn id(byte: u8) -> SymbolId {
    SymbolId::from_bytes([byte; 32])
}

fn file_id(name: &str) -> FileId {
    FileId::from_bytes(*blake3::hash(name.as_bytes()).as_bytes())
}

#[test]
fn new_queue_is_empty() {
    let mut q = LazyRefreshQueue::new();
    assert!(q.take_incremental_batch(500).is_empty());
    assert!(!q.needs_full_rebuild());
}

#[test]
fn record_lazy_writes_stores_and_counts() {
    let mut q = LazyRefreshQueue::new();
    let f1 = file_id("a.rs");
    let f2 = file_id("b.rs");
    let f3 = file_id("c.rs");
    q.record_lazy_writes(&vec![f1, f2]);
    assert_eq!(q.cumulative_count(), 2);
    q.record_lazy_writes(&vec![f1]);
    assert_eq!(q.cumulative_count(), 2);
    q.record_lazy_writes(&vec![f1, f3]);
    assert_eq!(q.cumulative_count(), 3);
    let batch = q.take_incremental_batch(500);
    assert_eq!(batch.len(), 3);
    assert!(q.take_incremental_batch(500).is_empty());
}

#[test]
fn schedule_full_rebuild_is_observable() {
    let mut q = LazyRefreshQueue::new();
    assert!(!q.needs_full_rebuild());
    q.schedule_full_rebuild();
    assert!(q.needs_full_rebuild());
    assert!(!q.needs_full_rebuild());
}

#[test]
fn rebuild_in_progress_is_atomic_gate() {
    let mut q = LazyRefreshQueue::new();
    assert!(!q.rebuild_in_progress());
    assert!(q.try_start_rebuild());
    assert!(q.rebuild_in_progress());
    assert!(!q.try_start_rebuild());
    q.mark_rebuild_finished();
    assert!(!q.rebuild_in_progress());
    assert!(q.try_start_rebuild());
}

#[test]
fn mark_rebuild_applied_clears_flag() {
    let mut q = LazyRefreshQueue::new();
    q.schedule_full_rebuild();
    q.mark_rebuild_applied();
    assert!(!q.needs_full_rebuild());
}

#[test]
fn cumulative_threshold_triggers_full_rebuild() {
    let mut q = LazyRefreshQueue::new();
    let fids: Vec<FileId> = (0..400).map(|i| file_id(&format!("{}.rs", i))).collect();
    q.record_lazy_writes(&fids[..399].to_vec());
    assert!(!q.needs_full_rebuild());
    q.record_lazy_writes(&fids[399..].to_vec());
    assert!(q.needs_full_rebuild());
}

#[test]
fn take_incremental_batch_respects_max() {
    let mut q = LazyRefreshQueue::new();
    let fids: Vec<FileId> = (0..10).map(|i| file_id(&format!("{}.rs", i))).collect();
    q.record_lazy_writes(&fids);
    let batch = q.take_incremental_batch(3);
    assert_eq!(batch.len(), 3);
    let remaining = q.take_incremental_batch(500);
    assert_eq!(remaining.len(), 7);
}

#[test]
fn batches_hand_out_each_file_once() {
    let mut q = LazyRefreshQueue::new();
    let files: Vec<FileId> = ["a", "b", "a", "c", "b"].iter().map(|n| file_id(n)).collect();
    q.record_lazy_writes(&files);
    let mut all = q.take_incremental_batch(2);
    assert_eq!(all.len(), 2);
    all.extend(q.take_incremental_batch(2));
    assert_eq!(all, vec![file_id("a"), file_id("b"), file_id("c")]);
    assert!(q.take_incremental_batch(2).is_empty());
    q.record_lazy_writes(&vec![file_id("a")]);
    assert_eq!(q.take_incremental_batch(2), vec![file_id("a")]);
}

#[test]
fn record_lazy_writes_deduplicates() {
    let mut q = LazyRefreshQueue::new();
    let f1 = file_id("a.rs");
    q.record_lazy_writes(&vec![f1]);
    q.record_lazy_writes(&vec![f1]);
    let batch = q.take_incremental_batch(500);
    assert_eq!(batch.len(), 1);
}

fn context_candidate(byte: u8, qname: &str, file: &str, kind: &str, line: u32) -> ScoredCandidate {
    ScoredCandidate {
        qualified_name: qname.to_string(),
        file_path: file.to_string(),
        line,
        kind: kind.to_string(),
        language: "typescript".to_string(),
        score: 100,
        reasons: vec![],
        symbol_ref: SymbolSelector {
            qualified_name: qname.to_string(),
            file_path: Some(file.to_string()),
            line: Some(line),
            kind: Some(kind.to_string()),
            language: Some("typescript".to_string()),
        },
        symbol_id: id(byte),
    }
}

/// Resolves a name that stands for several symbols.
fn ambiguous_context(candidates: Vec<ScoredCandidate>, qname: &str) -> Json {
    let resolution = SymbolResolution::Ambiguous { candidates, score_gap: 0 };
    let (_, action) = resolve_context_symbol(
        ContextPhase::Resolving,
        ContextEvent::Resolved(resolution),
        qname,
        "",
        10,
    );
    match action {
        ContextAction::Ambiguous(candidates) => ambiguous_context_body(&candidates),
        _ => panic!("the name is ambiguous"),
    }
}

#[test]
fn context_string_qname_multiple_matches_returns_ambiguous() {
    let resp = to_value(&ambiguous_context(
        vec![
            context_candidate(1, "turn", "a.ts", "function", 11),
            context_candidate(2, "turn", "b.ts", "variable", 21),
        ],
        "turn",
    ));
    assert_eq!(resp["ambiguous"], true);
    assert_eq!(resp["count"].as_u64().expect("count should be a number"), 2);
    let candidates = resp["candidates"].as_array().expect("candidates should be an array");
    assert_eq!(candidates.len(), 2);
    for c in candidates {
        assert!(c["symbol_ref"].is_object(), "candidate must have symbol_ref object");
        assert!(c["symbol_ref"]["qualified_name"].is_string());
        assert!(c["symbol_ref"]["file_path"].is_string());
        assert!(c["symbol_ref"]["line"].is_number());
        assert!(c["symbol_ref"]["kind"].is_string());
    }
    assert!(resp["id"].is_null(), "response should not have id field");
}

fn context_view(subject: &str) -> ContextView {
    let mut fields = atlas_mcp::json::JsonObject::new();
    fields.put("qualified_name", Json::text(subject));
    ContextView {
        subject: Json::Object(fields),
        subject_name: "process".to_string(),
        subject_qualified_name: subject.to_string(),
        subject_file_path: Json::text("src/main.rs"),
        subject_source: None,
        caller_details: vec![CallDetail {
            symbol: json("{}"),
            qualified_name: "main".to_string(),
            callsite_line: Json::Unsigned(3),
            callsite_snippet: Json::Null,
            edge_kind: EdgeKind::Calls,
            signature: Json::Null,
        }],
        callee_details: vec![],
        file_peers: json("[]"),
        importers: json("[]"),
        dependencies: json("[]"),
    }
}

#[test]
fn context_selector_precise_input_returns_full_context() {
    let resolution = SymbolResolution::Single {
        symbol_id: id(1),
        resolved: ResolvedSymbol {
            qualified_name: "crate.process".to_string(),
            file_path: "src/main.rs".to_string(),
            line: 42,
            kind: "function".to_string(),
            language: "typescript".to_string(),
        },
    };
    let (phase, action) = resolve_context_symbol(
        ContextPhase::Resolving,
        ContextEvent::Resolved(resolution),
        "crate.process",
        "",
        10,
    );
    assert!(matches!(action, ContextAction::Fetch(_)));
    let (_, found) =
        resolve_context_symbol(phase, ContextEvent::Fetched(true), "crate.process", "", 10);
    match found {
        ContextAction::Found { symbol_id, resolved_by_selector, .. } => {
            assert_eq!(symbol_id, id(1));
            assert!(resolved_by_selector);
        },
        _ => panic!("the symbol is stored"),
    }
    let resp = to_value(&build_context_response(
        "crate.process",
        &context_view("crate.process"),
        false,
        &None,
        None,
    ));
    assert!(resp["ambiguous"].is_null());
    assert!(resp["subject"].is_object());
    assert!(resp["subject"]["qualified_name"].as_str() == Some("crate.process"));
}

#[test]
fn context_ambiguous_response_has_no_hex_id() {
    let body = ambiguous_context(
        vec![
            context_candidate(1, "shared", "a.ts", "function", 1),
            context_candidate(2, "shared", "b.ts", "variable", 1),
        ],
        "shared",
    );
    assert!(!json_to_string(&body).contains("\"id\":"));
    let resp = to_value(&body);
    for c in resp["candidates"].as_array().expect("candidates") {
        assert!(c["id"].is_null(), "candidate must not have id field: {}", c);
        assert!(c["symbol_id"].is_null(), "candidate must not have symbol_id field: {}", c);
        assert!(c["symbol_ref"].is_object(), "candidate must have symbol_ref");
    }
}

#[test]
fn context_nonexistent_qname_returns_not_found() {
    let qname = "nonexistent";
    let unknown = || {
        ContextEvent::Resolved(SymbolResolution::NotFound {
            qname: qname.to_string(),
            suggestions: vec![],
        })
    };
    let (phase, action) =
        resolve_context_symbol(ContextPhase::Resolving, unknown(), qname, "", 10);
    assert!(matches!(action, ContextAction::LookUpName));
    let (phase, action) =
        resolve_context_symbol(phase, ContextEvent::Named(vec![]), qname, "", 10);
    assert!(matches!(action, ContextAction::Extract));
    let (phase, action) = resolve_context_symbol(phase, ContextEvent::Extracted, qname, "", 10);
    assert!(matches!(action, ContextAction::ResolveAgain));
    let (phase, action) = resolve_context_symbol(phase, unknown(), qname, "", 10);
    assert!(matches!(action, ContextAction::LookUpName));
    let (phase, action) =
        resolve_context_symbol(phase, ContextEvent::Named(vec![]), qname, "", 10);
    assert!(matches!(phase, ContextPhase::Settled));
    match action {
        ContextAction::NotFound(message) => assert!(message.contains("not found"), "{}", message),
        _ => panic!("the symbol does not exist"),
    }
}

fn stored(byte: u8, qname: &str) -> SymbolFacts {
    SymbolFacts {
        symbol_id: id(byte),
        name: qname.rsplit('.').next().unwrap_or(qname).to_string(),
        qualified_name: qname.to_string(),
        kind: SymbolKind::Function,
        kind_name: "function".to_string(),
        language: "rust".to_string(),
        file_path: "src/a.rs".to_string(),
        start_line: 9,
        signature: None,
    }
}

#[test]
fn context_names_match_whatever_the_case_of_letters() {
    let event = ContextEvent::Named(vec![stored(1, "Ünits.Start"), stored(2, "other.start")]);
    let (_, action) =
        resolve_context_symbol(ContextPhase::Naming, event, "üNITS.start", "", 10);
    match action {
        ContextAction::Found { symbol_id, .. } => assert_eq!(symbol_id, id(1)),
        _ => panic!("one qualified name is similar"),
    }
}

#[test]
fn context_requests() {
    let named = Ok(SymbolInput::Name("f".to_string()));
    let plan = plan_context(&json(r#"{"includeCode": true}"#), named, 10).expect("a plan");
    assert!(plan.include_code);
    assert!(plan.include_file_peers);
    assert!(plan_context(&json("{}"), Err("no symbol".to_string()), 10).is_err());
    let stored = to_value(&stored_context_args(&json(r#"{"symbol": "f"}"#)));
    assert_eq!(stored["view"], "context");
    assert_eq!(stored["symbol"], "f");
}

fn ring() -> CodeGraph {
    let node = |byte: u8, name: &str| GraphNode {
        symbol_id: id(byte),
        name: name.to_string(),
        qualified_name: name.to_string(),
        kind_name: "function".to_string(),
        file: "a.rs".to_string(),
        line: 1,
        summary: Json::text(name),
    };
    let to = |place: usize| vec![Neighbor { kind: EdgeKind::Calls, node: place }];
    CodeGraph::new(
        vec![node(1, "a"), node(2, "b"), node(3, "c")],
        vec![to(2), to(0), to(1)],
        vec![to(1), to(2), to(0)],
    )
    .expect("all edges lead to nodes")
}

#[test]
fn call_graphs_visit_each_symbol_once() {
    let graph = ring();
    assert_eq!(graph.position(id(2)), Some(1));
    assert_eq!(graph.position(id(9)), None);
    let body = call_graph_body(
        &graph,
        &vec![id(1)],
        "a",
        &vec![EdgeKind::Calls],
        "outgoing",
        5,
        100,
        &Json::Null,
        true,
    )
    .expect("the symbol is in the graph");
    let resp = to_value(&body);
    assert_eq!(resp["symbol"], "a");
    assert_eq!(resp["max_depth"], 5);
    assert_eq!(resp["total_nodes_visited"], 3);
    assert!(resp.get("note").is_none());
    assert!(resp.get("resolution").is_none());
    let text = json_to_string(&body);
    assert_eq!(text.matches("\"name\":\"b\"").count(), 1, "{}", text);
    assert_eq!(text.matches("\"name\":\"c\"").count(), 1, "{}", text);
}

#[test]
fn call_graphs_keep_to_the_limit_and_the_allowed_edges() {
    let graph = ring();
    let visited = |allowed: Vec<EdgeKind>, direction: &str, limit: usize| {
        let body = call_graph_body(
            &graph,
            &vec![id(1)],
            "a",
            &allowed,
            direction,
            5,
            limit,
            &Json::Null,
            false,
        )
        .expect("the symbol is in the graph");
        to_value(&body)["total_nodes_visited"].as_u64().expect("a count")
    };
    assert_eq!(visited(vec![], "both", 100), 3);
    assert_eq!(visited(vec![], "outgoing", 1), 1);
    assert_eq!(visited(vec![], "outgoing", 2), 2);
    assert_eq!(visited(vec![EdgeKind::Reads], "both", 100), 1);
    assert_eq!(
        call_graph_body(
            &graph,
            &vec![id(9)],
            "gone",
            &vec![],
            "",
            1,
            1,
            &Json::Null,
            true,
        )
        .err(),
        Some("symbol 'gone' not found in graph snapshot".to_string())
    );
    assert!(CodeGraph::new(vec![], vec![vec![]], vec![]).is_none());
    let node = |byte: u8| GraphNode {
        symbol_id: id(byte),
        name: "n".to_string(),
        qualified_name: "n".to_string(),
        kind_name: "function".to_string(),
        file: "a.rs".to_string(),
        line: 1,
        summary: Json::Null,
    };
    let none = || vec![vec![], vec![], vec![]];
    assert!(CodeGraph::new(vec![node(1), node(2), node(1)], none(), none()).is_none());
    assert!(CodeGraph::new(vec![node(1), node(2), node(3)], none(), none()).is_some());
    let ways = read_ways("incoming");
    assert!(ways.incoming && !ways.outgoing);
    assert!(read_ways("").incoming && read_ways("").outgoing);
}

#[test]
fn call_graph_hops_are_numbered_and_one_sided() {
    let body = call_graph_body(
        &ring(),
        &vec![id(1)],
        "a",
        &vec![EdgeKind::Calls],
        "outgoing",
        2,
        100,
        &Json::Null,
        true,
    )
    .expect("the symbol is in the graph");
    let resp = to_value(&body);
    let hops = resp["hops"].as_array().expect("hops");
    assert_eq!(hops.len(), 3);
    for (level, hop) in hops.iter().enumerate() {
        assert_eq!(hop["depth"], level as u64);
        assert_eq!(hop["callers"].as_array().map(|a| a.len()), Some(0));
    }
    assert_eq!(hops[1]["callees"][0]["name"], "b");
    assert_eq!(hops[2]["callees"][0]["name"], "c");
}

fn dispatch_symbol(language: Language, kind: SymbolKind, kind_name: &str) -> DispatchSymbol {
    DispatchSymbol {
        language,
        language_name: "language".to_string(),
        kind,
        kind_name: kind_name.to_string(),
    }
}

fn error_of(body: &Json) -> String {
    to_value(body)["error"].as_str().expect("an error").to_string()
}

#[test]
fn annotations_are_checked() {
    let plan = plan_annotation(
        &json(r#"{"field_qname": "Ops.read", "target_qname": "do_read"}"#),
        20,
    )
    .ok()
    .expect("a plan");
    assert_eq!(plan.field_qname, "Ops.read");
    assert!(plan_annotation(&json(r#"{"field_qname": "Ops.read"}"#), 20).is_err());
    let long = plan_annotation(
        &json(r#"{"field_qname": "Ops.read", "target_qname": "a much too long name"}"#),
        8,
    )
    .err()
    .expect("too long");
    assert_eq!(error_of(&long), "target_qname exceeds maximum length of 8 characters");

    let field = || Some(dispatch_symbol(Language::C, SymbolKind::Field, "field"));
    let target = || Some(dispatch_symbol(Language::C, SymbolKind::Function, "function"));
    assert!(check_dispatch(&field(), &target(), &plan).is_ok());
    assert!(check_dispatch(&None, &None, &plan).is_ok());
    let wrong_language = Some(dispatch_symbol(Language::Rust, SymbolKind::Field, "field"));
    assert!(error_of(&check_dispatch(&wrong_language, &target(), &plan).err().unwrap())
        .contains("only applicable to C and C++"));
    let wrong_kind = Some(dispatch_symbol(Language::C, SymbolKind::Other, "struct"));
    assert!(error_of(&check_dispatch(&wrong_kind, &target(), &plan).err().unwrap())
        .contains("Expected a Field symbol"));
    assert!(error_of(&check_dispatch(&field(), &wrong_kind, &plan).err().unwrap())
        .contains("Expected a Function or Method symbol"));
}

#[test]
fn annotation_ends_are_resolved() {
    let one = SymbolResolution::Single {
        symbol_id: id(4),
        resolved: ResolvedSymbol {
            qualified_name: "f".to_string(),
            file_path: "a.c".to_string(),
            line: 1,
            kind: "field".to_string(),
            language: "c".to_string(),
        },
    };
    assert_eq!(dispatch_end(DispatchEnd::Field, Ok(one), "f", "").ok(), Some(id(4)));
    let two = SymbolResolution::Ambiguous {
        candidates: vec![
            context_candidate(1, "f", "a.c", "field", 3),
            context_candidate(2, "f", "b.c", "field", 4),
        ],
        score_gap: 0,
    };
    let error = error_of(&dispatch_end(DispatchEnd::Target, Ok(two), "f", "").err().unwrap());
    assert!(
        error.starts_with("Target symbol 'f' is ambiguous (2 matches: a.c::3 [field], b.c::4 [field])"),
        "{}",
        error
    );
    let none = SymbolResolution::NotFound { qname: "f".to_string(), suggestions: vec![] };
    assert_eq!(
        error_of(&dispatch_end(DispatchEnd::Field, Ok(none), "f", "!").err().unwrap()),
        "Symbol not found: f!"
    );
}

#[test]
fn annotation_identifiers_hold_a_digest() {
    assert_eq!(field_name_of("ns::Ops.read"), "read");
    assert_eq!(field_name_of("Ops::read::"), "read");
    let digest = blake3::hash(&[7u8; 32]);
    assert_eq!(
        annotation_id(id(7), "read"),
        format!("fpa:{}:read", hex::encode(&digest.as_bytes()[..8]))
    );
}

#[test]
fn annotation_replies() {
    let plan = plan_annotation(
        &json(r#"{"field_qname": "Ops.read", "target_qname": "do_read"}"#),
        20,
    )
    .ok()
    .expect("a plan");
    let confidence = json("1.0");
    let (_, created_error) =
        annotation_body(&AnnotationOutcome::Created, "fpa:1:read", "read", &plan, &confidence);
    assert!(!created_error);
    let (failed, failed_error) = annotation_body(
        &AnnotationOutcome::NotStored("disk".to_string()),
        "fpa:1:read",
        "read",
        &plan,
        &confidence,
    );
    assert!(failed_error);
    assert!(json_to_string(&failed).contains("disk"));
    let (unmade, _) = annotation_body(
        &AnnotationOutcome::NotMaterialized("edge".to_string()),
        "fpa:1:read",
        "read",
        &plan,
        &confidence,
    );
    assert!(json_to_string(&unmade).contains("edge"));
}

#[test]
fn list_fp_annotations_does_not_panic() {
    let (none, is_error) = list_annotations_body(&Ok(vec![]));
    assert!(!is_error);
    assert!(to_value(&none).get("annotations").is_some());
    let (one, _) = list_annotations_body(&Ok(vec![StoredAnnotation {
        annotation_id: "fpa:1:read".to_string(),
        source_qname: Some("Ops.read".to_string()),
        field_name: "read".to_string(),
        target_qname: None,
        confidence: json("1.0"),
    }]));
    assert_eq!(to_value(&one)["annotations"][0]["annotation_id"], "fpa:1:read");
    assert!(list_annotations_body(&Err("x".to_string())).1);
}

#[test]
fn annotation_deletions() {
    assert!(matches!(
        plan_annotation_deletion(&json(r#"{"annotation_id": "fpa:1", "field_qname": "S.f"}"#)),
        Ok(AnnotationKey::Id(_))
    ));
    assert!(matches!(
        plan_annotation_deletion(&json(r#"{"field_qname": "S.f"}"#)),
        Ok(AnnotationKey::Field(_))
    ));
    assert!(plan_annotation_deletion(&json("{}")).is_err());
    assert_eq!(
        annotation_of_field(Ok(Some("fpa:1".to_string())), "S.f").ok(),
        Some("fpa:1".to_string())
    );
    assert!(annotation_of_field(Ok(None), "S.f").is_err());
    assert!(annotation_of_field(Err("x".to_string()), "S.f").is_err());
    let (deleted, is_error) = deletion_body(&DeletionOutcome::Deleted, "fpa:1");
    assert!(!is_error);
    assert_eq!(to_value(&deleted)["status"], "deleted");
    for outcome in [
        DeletionOutcome::NothingThere,
        DeletionOutcome::DeleteFailed("a".to_string()),
        DeletionOutcome::CleanupFailed("b".to_string()),
        DeletionOutcome::RefreshFailed("c".to_string()),
    ] {
        assert!(deletion_body(&outcome, "fpa:1").1);
    }
}

fn run_deletion(
    deleted: Result<bool, String>,
    cleaned: Result<bool, String>,
    refreshed: Result<bool, String>,
) -> (serde_json::Value, bool) {
    let mut work = DeletionWork::Delete;
    loop {
        let done = match work {
            DeletionWork::Delete => deleted.clone(),
            DeletionWork::Cleanup => cleaned.clone(),
            DeletionWork::Refresh => refreshed.clone(),
        };
        match deletion_step(work, done) {
            DeletionStep::Work(next) => work = next,
            DeletionStep::End(outcome) => {
                let (body, is_error) = deletion_body(&outcome, "fpa:1");
                return (to_value(&body), is_error);
            },
        }
    }
}

#[test]
fn annotations_are_deleted_once() {
    let mut stored = vec!["fpa:1", "fpa:2"];
    let mut delete = || {
        let before = stored.len();
        stored.retain(|known| *known != "fpa:1");
        Ok(stored.len() < before)
    };
    let (reply, is_error) = run_deletion(delete(), Ok(true), Ok(true));
    assert!(!is_error);
    assert_eq!(reply["status"], "deleted");
    assert_eq!(reply["annotation_id"], "fpa:1");
    let (reply, is_error) = run_deletion(delete(), Ok(true), Ok(true));
    assert!(is_error);
    assert_eq!(reply["status"], "not_found");
    assert_eq!(stored, vec!["fpa:2"]);
}

#[test]
fn deletions_end_at_what_fails() {
    let broken = || Err("x".to_string());
    let error = |reply: (serde_json::Value, bool)| {
        assert!(reply.1);
        reply.0["error"].as_str().expect("an error").to_string()
    };
    assert_eq!(
        error(run_deletion(broken(), Ok(true), Ok(true))),
        "Failed to delete annotation: x"
    );
    assert_eq!(
        error(run_deletion(Ok(true), broken(), Ok(true))),
        "Annotation deleted but edge cleanup failed: x"
    );
    assert_eq!(
        error(run_deletion(Ok(true), Ok(true), broken())),
        "Failed to rebuild graph after annotation removal: x"
    );
    assert_eq!(run_deletion(Ok(false), broken(), broken()).0["status"], "not_found");
}

#[test]
fn index_requests_are_read_and_checked() {
    let request = read_index_request(&json(
        r#"{"analysis": "full", "include": ["src", 7, "lib"], "background": true}"#,
    ));
    assert_eq!(request.analysis, "full");
    assert_eq!(request.only, vec!["src".to_string(), "lib".to_string()]);
    assert!(request.background && !request.force_reindex && !request.auto_background);
    assert!(request.check().is_ok());
    assert_eq!(read_index_request(&json("{}")).analysis, "manifest");
    let mut crowded = read_index_request(&json("{}"));
    crowded.only = (0..100).map(|i| i.to_string()).collect();
    assert!(crowded.check().is_ok());
    crowded.only.push("one more".to_string());
    assert!(crowded.check().err().expect("too many").contains("101"));
    crowded.except = crowded.only.clone();
    assert!(crowded.check().err().expect("too many").contains("exclude"));
}

#[test]
fn index_results() {
    let stats = IndexStats { discovered: 6000, indexed: 5, failed: 1, symbols: 10, resolved: 3 };
    let done = finish_index(Ok(stats), 10);
    assert!(done.ok);
    assert!(!done.is_error());
    assert_eq!(done.files_discovered, 6000);
    assert!(done.warning.is_some());
    let body = to_value(&done.to_json());
    assert_eq!(body["symbols_found"], 10);
    assert_eq!(body["duration_ms"], 10);
    let small = IndexStats { discovered: 10, ..stats };
    assert!(finish_index(Ok(small), 10).warning.is_none());
    assert!(finish_index(Ok(small), 30_001).warning.is_some());
    let failed = finish_index(Err("no disk".to_string()), 10);
    assert!(!failed.ok);
    assert!(failed.is_error());
    assert_eq!(failed.errors, vec!["Index failed: no disk".to_string()]);
    assert!(finish_background_index(small, 30_000).warning.is_none());
    assert!(finish_background_index(small, 30_001).warning.is_some());
    assert_eq!(index_error_result("e".to_string()).errors, vec!["e".to_string()]);
    assert!(lock_failure("busy").ends_with(": busy"));
}

#[test]
fn index_warnings_are_kept() {
    assert_eq!(append_warning(None, "a"), Some("a".to_string()));
    assert_eq!(append_warning(Some(String::new()), "a"), Some("a".to_string()));
    assert_eq!(append_warning(Some("a".to_string()), "b"), Some("a b".to_string()));
}

#[test]
fn index_progress() {
    let body = to_value(&background_body("t1", json("0.0"), true));
    assert_eq!(body["task_id"], "t1");
    assert_eq!(body["status"], "running");
    assert_eq!(body["progress"], 0.0);
    assert_eq!(body["auto_background"], true);
    assert_eq!(
        progress_report(&IndexEvent::PhaseStarted { phase: "parse".to_string() }),
        Some((0, "parse...".to_string()))
    );
    assert_eq!(
        progress_report(&IndexEvent::ItemProgress { phase: "parse".to_string(), completed: 12 }),
        Some((50, "parse: 12 items".to_string()))
    );
    assert_eq!(progress_report(&IndexEvent::Warning), None);
    assert_eq!(progress_report(&IndexEvent::Cancelled), None);
}

#[test]
fn file_dependency_requests() {
    assert_eq!(clean_path("././src/a.c"), "src/a.c");
    let plan = plan_file_dependencies(&json(
        r#"{"file_path": "./src/a.c", "direction": "both", "analysis": "structural"}"#,
    ))
    .expect("a plan");
    assert_eq!(plan.stored_path, "src/a.c");
    assert_eq!(plan.side, DependencySide::Both);
    assert!(plan.structural);
    assert_eq!(plan.limit, 50);
    assert_eq!(
        plan_file_dependencies(&json("{}")).err(),
        Some("Missing required 'file_path' parameter".to_string())
    );
    assert!(plan_file_dependencies(&json(r#"{"file_path": "a", "direction": "up"}"#)).is_err());
    assert!(check_file_lookup(&Ok(true), "a").is_ok());
    assert_eq!(check_file_lookup(&Ok(false), "a").err(), Some("File not found: a".to_string()));
    assert!(check_file_lookup(&Err("x".to_string()), "a").is_err());
}

#[test]
fn file_dependencies_are_listed() {
    let rows = || {
        vec![
            ImportRow {
                module: "m1".to_string(),
                imported_name: "n".to_string(),
                kind: "import".to_string(),
            },
            ImportRow {
                module: "m2".to_string(),
                imported_name: "n".to_string(),
                kind: "import".to_string(),
            },
        ]
    };
    let outgoing = dependencies_body("a.c", "id", &Ok(rows()), 1).expect("a body");
    let body = to_value(&outgoing);
    assert!(json_to_string(&outgoing).contains("m1"));
    assert!(!json_to_string(&outgoing).contains("m2"));
    assert_eq!(body["total_dependencies"], 2);
    let incoming = dependents_body(
        "a.c",
        &Ok(vec![DependentRow { file: "b.c".to_string(), module: "a.h".to_string() }]),
        10,
    )
    .expect("a body");
    assert!(json_to_string(&incoming).contains("b.c"));
    assert!(dependents_body("a.c", &Err("x".to_string()), 10).is_err());
    assert!(dependencies_body("a.c", "id", &Err("x".to_string()), 10).is_err());

    let side: Result<Json, String> = Ok(outgoing);
    assert_eq!(edge_budget(5, &side, "total_dependencies"), 3);
    assert_eq!(edge_budget(1, &side, "total_dependencies"), 0);
    assert_eq!(edge_budget(5, &Err("x".to_string()), "total_dependencies"), 5);
    let (both, failed) = structural_body(DependencySide::Both, &side, &Err("x".to_string()));
    assert!(failed);
    assert!(to_value(&both)["incoming"].is_null());
    assert_eq!(to_value(&manifest_side(&Err("x".to_string()))), to_value(&json("{}")));
    assert_eq!(structural_summary(0), "Full index available");
    assert_eq!(structural_summary(3), "Lazy-built 3 files (structural mode)");
    let both = to_value(&manifest_both_body(Json::Null, Json::Bool(true), Json::text("x")));
    assert_eq!(both["incoming"], true);
}

#[test]
fn connected_files_are_listed_once() {
    let edges = vec![
        SymbolEdge { source: id(1), target: id(2) },
        SymbolEdge { source: id(1), target: id(3) },
        SymbolEdge { source: id(3), target: id(1) },
        SymbolEdge { source: id(1), target: id(3) },
    ];
    let own = vec![id(1), id(2)];
    assert_eq!(connected_symbols(&own, &edges, false), vec![id(3)]);
    assert_eq!(connected_symbols(&own, &edges, true), vec![id(3)]);
    let symbol = |path: &str, name: &str| ForeignSymbol {
        path: path.to_string(),
        name: name.to_string(),
    };
    let symbols = vec![symbol("b.c", "x"), symbol("b.c", "y"), symbol("c.c", "z")];
    let listed = to_value(&manifest_edge_dependents(&symbols, 10));
    assert_eq!(listed.as_array().map(|a| a.len()), Some(2));
    let first = to_value(&manifest_edge_dependencies(&symbols, 1));
    assert_eq!(first.as_array().map(|a| a.len()), Some(1));
    assert!(first.to_string().contains("b.c"));
}

#[test]
fn dependencies_and_dependents_agree() {
    let edges = vec![SymbolEdge { source: id(1), target: id(3) }];
    let used = connected_symbols(&vec![id(1), id(2)], &edges, false);
    let users = connected_symbols(&vec![id(3)], &edges, true);
    assert_eq!(used, vec![id(3)]);
    assert_eq!(users, vec![id(1)]);
    let symbol = |path: &str| ForeignSymbol { path: path.to_string(), name: "f".to_string() };
    let listed = to_value(&manifest_edge_dependencies(&vec![symbol("b.rs")], 1));
    assert_eq!(listed[0]["module"], "b.rs");
    let listed = to_value(&manifest_edge_dependents(&vec![symbol("a.rs")], 1));
    assert_eq!(listed[0]["file"], "a.rs");
    assert!(connected_symbols(&vec![id(1), id(2)], &edges, true).is_empty());
    assert!(connected_symbols(&vec![id(3)], &edges, false).is_empty());
}

#[test]
fn domain_rules_list_has_rules() {
    assert!(matches!(
        plan_rule_action(&json(r#"{"action": "list"}"#)),
        Ok(RuleAction::List { .. })
    ));
    let empty = list_rules_reply(&Ok(vec![]), "").expect("a list");
    assert!(to_value(&empty).get("rules").is_some());
}

#[test]
fn domain_rules() {
    let plan = plan_rule(&json(r#"{"rule_kind": "free_fn", "pattern": "kfree"}"#))
        .expect("a plan");
    assert_eq!(plan.rule_kind, "free_fn");
    assert!(plan_rule(&json(r#"{"rule_kind": "free_fn"}"#)).is_err());
    assert!(plan_rule(&json(r#"{"rule_kind": "other", "pattern": "x"}"#)).is_err());
    let saved = save_reply(&plan, Ok(Json::text("rule:1")), &json("1.0")).expect("saved");
    assert_eq!(to_value(&saved)["rule_id"], "rule:1");
    assert_eq!(to_value(&saved)["pattern"], "kfree");
    assert!(save_reply(&plan, Err("x".to_string()), &json("1.0")).is_err());
    assert_eq!(
        plan_rule_action(&json(r#"{"action": "delete"}"#)).err(),
        Some("Missing rule_id for delete action".to_string())
    );
    assert!(matches!(
        plan_rule_action(&json(r#"{"action": "delete", "rule_id": "rule:1"}"#)),
        Ok(RuleAction::Delete { .. })
    ));
    let gone = delete_reply("rule:1", &Ok(true)).expect("deleted");
    assert_eq!(to_value(&gone)["deleted"], "rule:1");
    assert_eq!(
        delete_reply("rule:1", &Ok(false)).err(),
        Some("Rule not found: rule:1".to_string())
    );
    let row = |source: &str| RuleRow {
        id: Json::text("rule:1"),
        language: "c".to_string(),
        source: source.to_string(),
        rule_kind: "free_fn".to_string(),
        pattern: "kfree".to_string(),
        pattern_kind: "exact".to_string(),
        status: "enabled".to_string(),
        confidence: json("1.0"),
        created_at: Json::Null,
        updated_at: Json::Null,
    };
    let listed = list_rules_reply(&Ok(vec![row("user"), row("builtin")]), "user").expect("a list");
    assert_eq!(to_value(&listed)["rules"].as_array().map(|a| a.len()), Some(1));
    let candidate = |confident: bool| RuleCandidate {
        pattern: "my_free".to_string(),
        rule_kind: "free_fn".to_string(),
        usage_count: Json::Unsigned(3),
        confidence: json("0.9"),
        confident,
    };
    let learned = learn_reply(&Ok(vec![candidate(true), candidate(false)])).expect("a list");
    assert_eq!(json_to_string(&learned).matches("my_free").count(), 1);
    assert!(learn_reply(&Err("x".to_string())).is_err());
}

#[test]
fn tasks_has_tasks_field() {
    let (jobs, is_error) = atlas_jobs_body(&Ok(vec![]), None);
    assert!(!is_error);
    let body = to_value(&tasks_body(json("[]"), jobs, None));
    assert!(body.get("active_extraction_jobs").is_some() || body.get("atlas_jobs").is_some());
    assert!(body.get("query").is_none());
}

#[test]
fn jobs_and_queries() {
    let row = JobRow {
        job_id: "j1".to_string(),
        file: "a.c".to_string(),
        layer: "cfg".to_string(),
        status: "queued".to_string(),
        trigger_query: Json::Null,
        started_at: Json::Null,
        completed_at: Json::Null,
    };
    let counts = JobCounts { queued: 1, building: 2, complete: 3, failed: 4 };
    let (jobs, _) = atlas_jobs_body(&Ok(vec![row]), Some(counts));
    assert!(json_to_string(&jobs).contains("j1"));
    assert!(atlas_jobs_body(&Err("x".to_string()), None).1);
    let failures = query_failures(
        &vec![WatchedFailure { job_id: "w".to_string(), reason: "r".to_string() }],
        &vec![
            AwaitedJob {
                job_id: "j1".to_string(),
                status: "failed".to_string(),
                error_msg: Some("oops".to_string()),
            },
            AwaitedJob { job_id: "j2".to_string(), status: "queued".to_string(), error_msg: None },
        ],
    );
    assert_eq!(failures, vec!["w: r".to_string(), "j1: oops".to_string()]);
    let state = |progress: Option<QueryProgress>| to_value(&query_state("q", &progress));
    assert_eq!(state(None)["status"], "not_found_or_expired");
    let progress = |failures: Vec<String>, pending: u64| {
        Some(QueryProgress {
            tool_name: "explore".to_string(),
            failures,
            pending,
            retry_after_ms: 500,
        })
    };
    assert_eq!(state(progress(failures, 2))["status"], "failed");
    assert_eq!(state(progress(vec![], 2))["retry_after_ms"], 500);
    assert!(state(progress(vec![], 0)).get("retry_after_ms").is_none());
}

#[test]
fn language_capabilities() {
    let profile = |features: Option<Json>| LanguageProfile {
        language: Json::text("rust"),
        capability_level: "full".to_string(),
        supported_features: json("[]"),
        unsupported_features: json("[]"),
        limitations: json("[]"),
        confidence_floor: json("0.5"),
        features,
    };
    let body = language_capabilities_body(&vec![profile(None), profile(Some(json("{}")))]);
    assert_eq!(json_to_string(&body).matches("\"rust\"").count(), 2);
    assert_eq!(json_to_string(&body).matches("\"features\"").count(), 1);
}

#[test]
fn queries_live_for_their_time() {
    let mut state: AsyncState<u32> = AsyncState::new();
    let snapshot = |query_id: &str, created_at: u64| QuerySnapshot {
        query_id: query_id.to_string(),
        tool_name: "search".to_string(),
        tool_args: json("{}"),
        focus_result: None,
        created_at,
        status: QueryStatus::Ready,
    };
    state.store_query_snapshot(snapshot("a", 0));
    state.store_query_snapshot(snapshot("b", 50));
    state.prune_expired_snapshots(100, 100);
    assert!(state.query_snapshot("a").is_none());
    assert!(state.query_snapshot("b").is_some());
}

#[test]
fn tasks_are_followed_and_forgotten() {
    let mut manager = TaskManager::new();
    let first = manager.create_task("index", 1, 0);
    let second = manager.create_task("index", 2, 0);
    assert_ne!(first, second);
    manager.update_progress(&first, Percent { bits: 0 }, "parsing");
    let task = manager.get_task(&first).expect("the task");
    assert_eq!(task.status, TaskStatus::Running);
    assert_eq!(task.progress_message, Some("parsing".to_string()));
    assert_eq!(task.elapsed_secs(2_500_000_000), 2);
    manager.complete_task(&first, Json::Bool(true), 10);
    let task = manager.get_task(&first).expect("the task");
    assert_eq!(task.status, TaskStatus::Completed);
    assert_eq!(task.progress, Some(Percent { bits: FULL_PERCENT_BITS }));
    manager.fail_task(&second, "broken", 10);
    assert_eq!(manager.get_task(&second).expect("the task").error, Some("broken".to_string()));
    let third = manager.create_task("index", 3, 0);
    manager.prune_old_tasks(90, 99);
    assert!(manager.get_task(&first).is_some());
    manager.prune_old_tasks(90, 100);
    assert!(manager.get_task(&first).is_none());
    assert!(manager.get_task(&third).is_some());
    assert_eq!(f64::from_bits(FULL_PERCENT_BITS), 100.0);
}

#[test]
fn task_identifiers_are_digests() {
    let digest = blake3::hash(b"index-12345678901234567890");
    assert_eq!(
        gen_task_id("index", 12_345_678_901_234_567_890),
        hex::encode(&digest.as_bytes()[..4])
    );
    let task_id = TaskManager::new().create_task("index", 7, 0);
    assert_eq!(task_id.len(), 8);
    assert!(task_id.chars().all(|c| matches!(c, '0'..='9' | 'a'..='f')), "{}", task_id);
}

#[test]
fn white_space_is_what_the_standard_library_trims() {
    for c in '\u{0}'..=char::MAX {
        let text = c.to_string();
        assert_eq!(trim(&text), text.trim(), "{:?}", c);
    }
}

#[test]
fn texts() {
    assert_eq!(trim(" \u{a0}x y\t"), "x y");
    assert_eq!(text_bytes("aé"), 3);
    assert_eq!(text_after_last("a::b::c", "::"), "c");
    assert_eq!(text_after_last("abc", "::"), "abc");
    assert!(contains_text("hello", "ell"));
    assert!(!contains_text("hello", "elk"));
    assert!(comes_before("a", "b") && !comes_before("b", "a") && !comes_before("a", "a"));
    assert!(comes_before("a", "ab"));
    assert_eq!(
        split_lines("a\r\nb\n\nc"),
        vec!["a".to_string(), "b".to_string(), String::new(), "c".to_string()]
    );
    assert_eq!(join_texts(&vec!["a".to_string(), "b".to_string()], ", "), "a, b");
    let mut number = String::new();
    push_decimal(&mut number, 1_050);
    number.push(' ');
    push_decimal_wide(&mut number, u128::MAX);
    assert_eq!(number, format!("1050 {}", u128::MAX));
}

#[test]
fn json_values_round_trip() {
    let text = r#"{"b":[1,-2,3.5,null,true],"a":{"x":"y\n"},"big":18446744073709551615}"#;
    let parsed = json(text);
    let expected: serde_json::Value = serde_json::from_str(text).unwrap();
    assert_eq!(to_value(&parsed), expected);
    assert_eq!(json_to_string(&parsed), expected.to_string());
    assert_eq!(
        json_to_string_pretty(&parsed),
        serde_json::to_string_pretty(&expected).unwrap()
    );
    assert!(same_json(&parsed, &from_value(expected)));
    assert!(!same_json(&parsed, &Json::Null));
    assert!(same_json(&json(r#"{"a":1,"b":2}"#), &json(r#"{"b":2,"a":1}"#)));
    assert!(parse_json("{").is_none());
}
