use atlas_mcp::adapter::{
    form_mrtr_supported, list_tools_result, plan_call, prepare_query_task, prepare_tool_call,
    query_tasks_supported, MAX_CONCURRENT_TOOL_CALLS, TOOL_CATALOG_TTL_MS,
};
use atlas_mcp::errors::{AdapterError, ErrorCode};
use atlas_mcp::explore_candidates::{
    explore_candidate_input_request, explore_candidate_input_required, to_response,
};
use atlas_mcp::forms::FormRequest;
use atlas_mcp::json::{Json, JsonObject};
use atlas_mcp::json_text::{from_value, parse_json, to_value};
use atlas_mcp::project_path::{project_open_missing_path, project_path_input_required};
use atlas_mcp::protocol::{CallToolResult, ContentBlock, Tool, ToolInputSchema};
use atlas_mcp::protocol_version::{is_valid_gregorian_date, protocol_supports_sep_2322};
use atlas_mcp::query_task::{
    bounded_query_task_poll_ms, query_task_supported_for_tool, retryable_query, RetryableQuery,
    MAX_QUERY_TASK_POLL_MS, MIN_QUERY_TASK_POLL_MS,
};
use atlas_mcp::responses::{InputRequired, PreparedToolCall, ToolResponse};

const MAX_PATH: u32 = 4096;

fn json(text: &str) -> Json {
    parse_json(text).expect("JSON text")
}

fn value(text: &str) -> serde_json::Value {
    serde_json::from_str(text).expect("JSON text")
}

fn object(text: &str) -> JsonObject {
    match json(text) {
        Json::Object(object) => object,
        _ => panic!("not an object: {}", text),
    }
}

fn responses(id: &str, response: serde_json::Value) -> JsonObject {
    let mut all = JsonObject::new();
    all.put(id, from_value(response));
    all
}

fn answer(action: &str) -> serde_json::Map<String, serde_json::Value> {
    let mut map = serde_json::Map::new();
    map.insert("action".into(), serde_json::Value::String(action.into()));
    map
}

fn filled(action: &str, field: &str, content: serde_json::Value) -> serde_json::Value {
    let mut fields = serde_json::Map::new();
    fields.insert(field.into(), content);
    let mut map = answer(action);
    map.insert("content".into(), serde_json::Value::Object(fields));
    serde_json::Value::Object(map)
}

fn explore_selection_responses(action: &str, selection: Option<&serde_json::Value>) -> JsonObject {
    match selection {
        Some(selection) => responses(
            "explore_symbol_selection",
            filled(
                action,
                "selection",
                serde_json::Value::String(serde_json::to_string(selection).unwrap()),
            ),
        ),
        None => responses("explore_symbol_selection", serde_json::Value::Object(answer(action))),
    }
}

fn project_path_responses(action: &str, project_path: Option<&str>) -> JsonObject {
    match project_path {
        Some(path) => responses(
            "project_path_input",
            filled(action, "project_path", serde_json::Value::String(path.into())),
        ),
        None => responses("project_path_input", serde_json::Value::Object(answer(action))),
    }
}

fn fills_forms(capabilities: Option<&rmcp::model::ClientCapabilities>) -> bool {
    capabilities
        .and_then(|capabilities| capabilities.elicitation.as_ref())
        .and_then(|elicitation| elicitation.form.as_ref())
        .is_some()
}

fn refused(result: Result<PreparedToolCall, AdapterError>) -> String {
    match result {
        Ok(_) => panic!("the call should be refused"),
        Err(error) => {
            assert_eq!(error.code, ErrorCode::InvalidParams);
            error.message
        },
    }
}

fn prepared(result: Result<PreparedToolCall, AdapterError>) -> PreparedToolCall {
    match result {
        Ok(prepared) => prepared,
        Err(error) => panic!("the call should be prepared: {}", error.message),
    }
}

fn retryable_query_result(query_id: &str, retry_after_ms: u64) -> CallToolResult {
    CallToolResult::of_text(
        format!(
            "{{\"query_id\": \"{}\", \"analysis\": {{\"retry_after_ms\": {}}}}}",
            query_id, retry_after_ms
        ),
        false,
    )
}

fn ambiguous_explore_result() -> CallToolResult {
    CallToolResult::of_text(
        r#"{
            "symbol": "shared_func",
            "ambiguous": true,
            "candidates": [
                {
                    "qualified_name": "shared_func",
                    "file_path": "src/a.rs",
                    "line": 10,
                    "symbol_ref": {
                        "qualified_name": "shared_func",
                        "file_path": "src/a.rs",
                        "line": 10,
                        "kind": "function",
                        "language": "rust"
                    }
                },
                {
                    "qualified_name": "shared_func",
                    "file_path": "src/b.rs",
                    "line": 20,
                    "symbol_ref": {
                        "qualified_name": "shared_func",
                        "file_path": "src/b.rs",
                        "line": 20,
                        "kind": "function",
                        "language": "rust"
                    }
                }
            ]
        }"#
            .to_string(),
        false,
    )
}

#[test]
fn server_new_is_constructable() {
    // The library holds no server state that would have to be locked.
}

#[test]
fn tool_calls_have_a_fixed_blocking_concurrency_bound() {
    assert_eq!(MAX_CONCURRENT_TOOL_CALLS, 4);
}

#[test]
fn sep_2322_protocol_gate_requires_a_valid_date_version_at_the_boundary() {
    assert!(!protocol_supports_sep_2322(None));
    assert!(!protocol_supports_sep_2322(Some("2026-07-27")));
    assert!(protocol_supports_sep_2322(Some("2026-07-28")));
    assert!(protocol_supports_sep_2322(Some("2027-01-01")));
    assert!(protocol_supports_sep_2322(Some("2028-02-29")));
    assert!(protocol_supports_sep_2322(Some("2400-02-29")));
    for malformed in [
        "2026-7-28",
        "2026-07-28-rc.1",
        "2026-13-01",
        "2026-09-31",
        "2026-11-31",
        "2027-02-29",
        "2028-02-30",
        "2100-02-29",
        "0000-12-31",
    ] {
        assert!(
            !protocol_supports_sep_2322(Some(malformed)),
            "malformed or non-date version must not enable SEP-2322: {}",
            malformed
        );
    }
}

#[test]
fn gregorian_dates() {
    assert!(is_valid_gregorian_date(2024, 2, 29));
    assert!(!is_valid_gregorian_date(2023, 2, 29));
    assert!(is_valid_gregorian_date(2000, 2, 29));
    assert!(!is_valid_gregorian_date(1900, 2, 29));
    assert!(is_valid_gregorian_date(2026, 4, 30));
    assert!(!is_valid_gregorian_date(2026, 4, 31));
    assert!(is_valid_gregorian_date(2026, 12, 31));
    assert!(!is_valid_gregorian_date(2026, 0, 1));
    assert!(!is_valid_gregorian_date(2026, 13, 1));
    assert!(!is_valid_gregorian_date(2026, 1, 0));
    assert!(!is_valid_gregorian_date(0, 1, 1));
}

#[test]
fn query_tasks_require_modern_protocol_and_client_extension() {
    let tasks = rmcp::model::ClientCapabilities::builder().enable_tasks().build();
    assert!(!query_tasks_supported(None, tasks.supports_tasks()));
    assert!(!query_tasks_supported(Some("2025-11-25"), tasks.supports_tasks()));
    assert!(!query_tasks_supported(Some("2026-07-28"), false));
    assert!(query_tasks_supported(Some("2026-07-28"), tasks.supports_tasks()));
    assert!(query_task_supported_for_tool("search", true, false));
    assert!(!query_task_supported_for_tool("explore", true, false));
    assert!(query_task_supported_for_tool("explore", true, true));
    assert!(!query_task_supported_for_tool("search", false, true));
}

#[test]
fn retryable_query_detection_is_strict_and_polling_is_bounded() {
    let valid = retryable_query_result("q_valid", 5_000);
    match retryable_query(&valid) {
        Some(RetryableQuery { query_id, retry_after_ms }) => {
            assert_eq!(query_id, "q_valid");
            assert_eq!(retry_after_ms, 5_000);
        },
        None => panic!("the query is retryable"),
    }
    assert_eq!(bounded_query_task_poll_ms(1), MIN_QUERY_TASK_POLL_MS);
    assert_eq!(bounded_query_task_poll_ms(u64::MAX), MAX_QUERY_TASK_POLL_MS);
    assert_eq!(bounded_query_task_poll_ms(5_000), 5_000);

    let malformed = [
        r#"{"query_id": "q", "analysis": {"retry_after_ms": 0}}"#,
        r#"{"query_id": "", "analysis": {"retry_after_ms": 500}}"#,
        r#"{"query_id": "q", "analysis": {"retry_after_ms": "500"}}"#,
        r#"{"query_id": "q"}"#,
    ];
    for body in malformed {
        let result = CallToolResult {
            content: vec![ContentBlock::text(body.to_string())],
            is_error: Some(false),
        };
        assert!(retryable_query(&result).is_none());
    }

    let mut error = retryable_query_result("q_error", 500);
    error.is_error = Some(true);
    assert!(retryable_query(&error).is_none());
    let multiple = CallToolResult {
        content: vec![
            ContentBlock::text("{}".to_string()),
            ContentBlock::text("{}".to_string()),
        ],
        is_error: Some(false),
    };
    assert!(retryable_query(&multiple).is_none());
}

#[test]
fn query_task_needs_a_stored_query_of_the_same_tool() {
    let retry = || retryable_query(&retryable_query_result("q", 500));
    let task = prepare_query_task("explore", true, retry(), Some("explore")).expect("a task");
    assert_eq!(task.retry.query_id, "q");
    assert!(task.allow_candidate_input);
    let other = prepare_query_task("search", true, retry(), Some("search")).expect("a task");
    assert!(!other.allow_candidate_input);
    assert!(prepare_query_task("explore", true, retry(), Some("search")).is_none());
    assert!(prepare_query_task("explore", true, retry(), None).is_none());
    assert!(prepare_query_task("explore", true, None, Some("explore")).is_none());
}

#[test]
fn calls_are_planned_by_tool_and_client() {
    let plan = plan_call("search", true, true, false);
    assert!(plan.reports_progress);
    assert!(plan.prepares_task);
    assert!(!plan.allows_candidate_input);
    assert!(plan.pins_scope);
    let project = plan_call("project", false, true, true);
    assert!(!project.reports_progress);
    assert!(project.prepares_task);
    assert!(!project.pins_scope);
    let explore = plan_call("explore", true, true, false);
    assert!(!explore.reports_progress);
    assert!(!explore.prepares_task);
    assert!(!explore.pins_scope);
    assert!(plan_call("explore", true, true, true).allows_candidate_input);
}

#[test]
fn explore_candidate_mrtr_requires_modern_protocol_and_form_elicitation() {
    let form = rmcp::model::ClientCapabilities::builder()
        .enable_elicitation_with(
            rmcp::model::ElicitationCapability::new()
                .with_form(rmcp::model::FormElicitationCapability::new()),
        )
        .build();
    let empty_elicitation = rmcp::model::ClientCapabilities::builder()
        .enable_elicitation_with(rmcp::model::ElicitationCapability::new())
        .build();
    let url_only = rmcp::model::ClientCapabilities::builder()
        .enable_elicitation_with(
            rmcp::model::ElicitationCapability::new()
                .with_url(rmcp::model::UrlElicitationCapability::new()),
        )
        .build();

    assert!(!form_mrtr_supported(None, fills_forms(Some(&form))));
    assert!(!form_mrtr_supported(Some("2025-11-25"), fills_forms(Some(&form))));
    assert!(!form_mrtr_supported(Some("2026-07-28"), fills_forms(None)));
    assert!(!form_mrtr_supported(Some("2026-07-28"), fills_forms(Some(&empty_elicitation))));
    assert!(!form_mrtr_supported(Some("2026-07-28"), fills_forms(Some(&url_only))));
    assert!(form_mrtr_supported(Some("2026-07-28"), fills_forms(Some(&form))));
}

#[test]
fn project_path_mrtr_requires_open_missing_path_and_form_support() {
    let modern_missing = prepared(prepare_tool_call(
        "project",
        json(r#"{"action": "open"}"#),
        None,
        None,
        true,
        MAX_PATH,
    ));
    assert!(!modern_missing.allow_candidate_mrtr);
    assert!(matches!(
        modern_missing.immediate_response,
        Some(ToolResponse::InputRequired(_))
    ));

    let empty_path = prepared(prepare_tool_call(
        "project",
        json(r#"{"action": "open", "project_path": ""}"#),
        None,
        None,
        true,
        MAX_PATH,
    ));
    assert!(empty_path.immediate_response.is_some());

    for (args, supported) in [
        (r#"{"action": "open"}"#, false),
        (r#"{"action": "status"}"#, true),
        (r#"{"action": "open", "project_path": "/tmp"}"#, true),
        (r#"{"action": "open", "project_path": 7}"#, true),
        (r#"{"action": "open", "project_path": null}"#, true),
        (r#"{"action": "open", "project_path": "  "}"#, true),
    ] {
        let call =
            prepared(prepare_tool_call("project", json(args), None, None, supported, MAX_PATH));
        assert!(!call.allow_candidate_mrtr);
        assert!(call.immediate_response.is_none());
    }
    assert!(project_open_missing_path(&json(r#"{"action": "open"}"#)));
    assert!(!project_open_missing_path(&json(r#"{"action": "status"}"#)));
}

fn form_wire(form: FormRequest) -> rmcp::model::InputRequest {
    rmcp::model::InputRequest::Elicitation(rmcp::model::ElicitRequest::new(
        rmcp::model::ElicitRequestParams::FormElicitationParams {
            meta: None,
            message: form.message,
            requested_schema: form.schema,
        },
    ))
}

fn required_wire(required: InputRequired) -> serde_json::Value {
    let mut requests = rmcp::model::InputRequests::new();
    requests.insert(required.input_id, form_wire(required.form));
    let result = rmcp::model::InputRequiredResult::new(Some(requests), required.request_state);
    serde_json::to_value(result).expect("input_required serializes")
}

#[test]
fn project_path_input_required_has_a_bounded_stateless_string_form() {
    let required = match project_path_input_required(MAX_PATH) {
        Ok(ToolResponse::InputRequired(required)) => required,
        _ => panic!("project path preflight must return input_required"),
    };
    assert!(required.request_state.is_none());
    assert_eq!(required.input_id, "project_path_input");
    let wire = required_wire(required);
    assert_eq!(wire["resultType"], "input_required");
    assert!(wire.get("requestState").is_none());
    let request = &wire["inputRequests"]["project_path_input"];
    assert_eq!(request["method"], "elicitation/create");
    assert_eq!(request["params"]["mode"], "form");
    let schema = &request["params"]["requestedSchema"];
    assert_eq!(schema["required"], value(r#"["project_path"]"#));
    assert_eq!(schema["properties"]["project_path"]["type"], "string");
    assert_eq!(schema["properties"]["project_path"]["minLength"], 1);
    assert_eq!(schema["properties"]["project_path"]["maxLength"], MAX_PATH);
    assert!(schema["properties"]["project_path"]["description"]
        .as_str()
        .is_some_and(|description| description.contains("Absolute path")));
}

#[test]
fn accepted_project_path_preserves_arguments_and_reuses_the_core_open_handler() {
    let answers = project_path_responses("accept", Some("/work/project"));
    let call = prepared(prepare_tool_call(
        "project",
        json(r#"{"action": "open", "client_note": "preserved"}"#),
        Some(&answers),
        None,
        true,
        MAX_PATH,
    ));
    let args = to_value(&call.args);
    assert_eq!(args["action"], "open");
    assert_eq!(args["project_path"], "/work/project");
    assert_eq!(args["client_note"], "preserved");
    assert!(call.immediate_response.is_none());
}

#[test]
fn declined_or_cancelled_project_path_falls_back_without_opening_or_looping() {
    for action in ["decline", "cancel"] {
        let answers = project_path_responses(action, None);
        let call = prepared(prepare_tool_call(
            "project",
            json(r#"{"action": "open"}"#),
            Some(&answers),
            None,
            true,
            MAX_PATH,
        ));
        assert!(call.immediate_response.is_none());
        assert!(call.args.get("project_path").is_none());
        assert_eq!(to_value(&call.args), value(r#"{"action": "open"}"#));
    }
}

#[test]
fn malformed_project_path_retry_and_request_state_are_rejected() {
    for answers in [
        project_path_responses("accept", None),
        project_path_responses("accept", Some("")),
        project_path_responses("unexpected", None),
    ] {
        refused(prepare_tool_call(
            "project",
            json(r#"{"action": "open"}"#),
            Some(&answers),
            None,
            true,
            MAX_PATH,
        ));
    }

    let non_string = responses("project_path_input", filled("accept", "project_path", value("7")));
    refused(prepare_tool_call(
        "project",
        json(r#"{"action": "open"}"#),
        Some(&non_string),
        None,
        true,
        MAX_PATH,
    ));

    let mut extra = project_path_responses("cancel", None);
    extra.put("extra", json(r#"{"action": "cancel"}"#));
    refused(prepare_tool_call(
        "project",
        json(r#"{"action": "open"}"#),
        Some(&extra),
        None,
        true,
        MAX_PATH,
    ));

    let missing_arguments = project_path_responses("accept", Some("/tmp"));
    refused(prepare_tool_call(
        "project",
        Json::Null,
        Some(&missing_arguments),
        None,
        true,
        MAX_PATH,
    ));

    refused(prepare_tool_call(
        "project",
        json(r#"{"action": "status"}"#),
        Some(&project_path_responses("accept", Some("/tmp"))),
        None,
        true,
        MAX_PATH,
    ));

    let unknown = responses("explore_symbol_selection", serde_json::Value::Object(answer("cancel")));
    refused(prepare_tool_call(
        "project",
        json(r#"{"action": "open"}"#),
        Some(&unknown),
        None,
        true,
        MAX_PATH,
    ));

    refused(prepare_tool_call(
        "project",
        json(r#"{"action": "open"}"#),
        None,
        Some("untrusted-state"),
        true,
        MAX_PATH,
    ));

    refused(prepare_tool_call(
        "project",
        json(r#"{"action": "open"}"#),
        Some(&project_path_responses("decline", None)),
        None,
        false,
        MAX_PATH,
    ));
}

#[test]
fn ambiguous_explore_builds_bounded_stateless_elicitation() {
    let result = ambiguous_explore_result();
    let required = explore_candidate_input_required(&result)
        .expect("ambiguous explore should require candidate input");
    assert!(required.request_state.is_none());
    assert_eq!(required.input_id, "explore_symbol_selection");
    let wire = required_wire(required);
    assert_eq!(wire["resultType"], "input_required");
    assert!(wire.get("requestState").is_none());
    let request = &wire["inputRequests"]["explore_symbol_selection"];
    let task_form = explore_candidate_input_request(&result)
        .expect("task candidate input should reuse the direct form");
    assert_eq!(
        &serde_json::to_value(form_wire(task_form)).expect("task candidate request serializes"),
        request
    );
    assert_eq!(request["method"], "elicitation/create");
    assert_eq!(request["params"]["mode"], "form");
    let choices = request["params"]["requestedSchema"]["properties"]["selection"]["oneOf"]
        .as_array()
        .expect("titled enum should serialize as oneOf");
    assert_eq!(choices.len(), 2);
    for (choice, expected_path) in choices.iter().zip(["src/a.rs", "src/b.rs"]) {
        let selector: serde_json::Value = serde_json::from_str(
            choice["const"].as_str().expect("candidate value should be a JSON string"),
        )
        .expect("candidate value should decode as JSON");
        assert_eq!(selector["file_path"], expected_path);
        assert!(choice["title"]
            .as_str()
            .is_some_and(|title| title.contains("shared_func") && title.contains(expected_path)));
    }
}

#[test]
fn candidate_mrtr_only_replaces_true_ambiguous_explore_results() {
    assert!(matches!(
        to_response("explore", ambiguous_explore_result(), true),
        ToolResponse::InputRequired(_)
    ));
    assert!(matches!(
        to_response("explore", ambiguous_explore_result(), false),
        ToolResponse::Complete(_)
    ));
    let deterministic =
        CallToolResult::of_text(r#"{"symbol": "unique", "resolution": {}}"#.to_string(), false);
    assert!(matches!(
        to_response("explore", deterministic, true),
        ToolResponse::Complete(_)
    ));
    assert!(matches!(
        to_response("search", ambiguous_explore_result(), true),
        ToolResponse::Complete(_)
    ));
}

#[test]
fn accepted_candidate_rewrites_only_symbol_and_disables_another_round() {
    let selector = value(
        r#"{
            "qualified_name": "shared_func",
            "file_path": "src/b.rs",
            "line": 20,
            "kind": "function",
            "language": "rust"
        }"#,
    );
    let answers = explore_selection_responses("accept", Some(&selector));
    let call = prepared(prepare_tool_call(
        "explore",
        json(r#"{"symbol": "shared_func", "source_mode": "none", "relation_limit": 7}"#),
        Some(&answers),
        None,
        true,
        MAX_PATH,
    ));
    let args = to_value(&call.args);
    assert_eq!(args["symbol"], selector);
    assert_eq!(args["source_mode"], "none");
    assert_eq!(args["relation_limit"], 7);
    assert!(!call.allow_candidate_mrtr);
}

#[test]
fn stateless_candidate_retry_treats_selection_as_an_ordinary_selector_input() {
    let selector = value(
        r#"{"qualified_name": "different_symbol", "file_path": "src/other.rs", "line": 42}"#,
    );
    let answers = explore_selection_responses("accept", Some(&selector));
    let call = prepared(prepare_tool_call(
        "explore",
        json(r#"{"symbol": "original_ambiguous_name", "scope": "src"}"#),
        Some(&answers),
        None,
        true,
        MAX_PATH,
    ));
    let args = to_value(&call.args);
    assert_eq!(args["symbol"], selector);
    assert_eq!(args["scope"], "src");
    assert!(!call.allow_candidate_mrtr);
}

#[test]
fn declined_or_cancelled_candidate_falls_back_without_looping() {
    let args = r#"{"symbol": "shared_func", "source_mode": "full"}"#;
    for action in ["decline", "cancel"] {
        let answers = explore_selection_responses(action, None);
        let call = prepared(prepare_tool_call(
            "explore",
            json(args),
            Some(&answers),
            None,
            true,
            MAX_PATH,
        ));
        assert_eq!(to_value(&call.args), value(args));
        assert!(!call.allow_candidate_mrtr);
    }
    let first = prepared(prepare_tool_call("explore", json(args), None, None, true, MAX_PATH));
    assert!(first.allow_candidate_mrtr);
}

#[test]
fn malformed_candidate_retry_and_request_state_are_rejected() {
    let symbol = r#"{"symbol": "shared_func"}"#;
    let missing_selection = explore_selection_responses("accept", None);
    refused(prepare_tool_call(
        "explore",
        json(symbol),
        Some(&missing_selection),
        None,
        true,
        MAX_PATH,
    ));

    let selector = value(r#"{"qualified_name": "shared_func"}"#);
    let missing_arguments = explore_selection_responses("accept", Some(&selector));
    refused(prepare_tool_call(
        "explore",
        Json::Null,
        Some(&missing_arguments),
        None,
        true,
        MAX_PATH,
    ));

    let non_object = value(r#""shared_func""#);
    refused(prepare_tool_call(
        "explore",
        json(symbol),
        Some(&explore_selection_responses("accept", Some(&non_object))),
        None,
        true,
        MAX_PATH,
    ));

    let unknown = responses("unexpected", serde_json::Value::Object(answer("decline")));
    refused(prepare_tool_call("explore", json(symbol), Some(&unknown), None, true, MAX_PATH));

    refused(prepare_tool_call(
        "explore",
        json(symbol),
        None,
        Some("untrusted-state"),
        true,
        MAX_PATH,
    ));

    refused(prepare_tool_call(
        "explore",
        json(symbol),
        Some(&explore_selection_responses("decline", None)),
        None,
        false,
        MAX_PATH,
    ));
}

#[test]
fn other_tools_are_called_as_they_are() {
    let args = r#"{"query": "main", "limit": 3}"#;
    let call = prepared(prepare_tool_call("search", json(args), None, None, true, MAX_PATH));
    assert_eq!(to_value(&call.args), value(args));
    assert!(!call.allow_candidate_mrtr);
    assert!(call.immediate_response.is_none());
}

#[test]
fn tool_catalog_cache_metadata_is_version_gated() {
    let tools = || {
        vec![Tool {
            name: "search".to_string(),
            description: "finds".to_string(),
            input_schema: ToolInputSchema::from_object(object("{}")),
        }]
    };
    let unknown = list_tools_result(tools(), None);
    let legacy = list_tools_result(tools(), Some("2025-11-25"));
    let modern = list_tools_result(tools(), Some("2026-07-28"));
    assert_eq!(unknown.ttl_ms, None);
    assert!(!unknown.public);
    assert_eq!(legacy.ttl_ms, None);
    assert!(!legacy.public);
    assert_eq!(modern.ttl_ms, Some(TOOL_CATALOG_TTL_MS));
    assert!(modern.public);
    assert_eq!(modern.tools.len(), 1);
    assert_eq!(modern.tools[0].name, "search");
}

#[test]
fn already_negotiated_newer_date_version_uses_adapter_forward_policy() {
    let result = list_tools_result(Vec::new(), Some("2027-01-01"));
    assert_eq!(result.ttl_ms, Some(TOOL_CATALOG_TTL_MS));
    assert!(result.public);
}

#[test]
fn tool_serializes_mcp_input_schema_name() {
    let tool = Tool {
        name: "example".to_string(),
        description: "example tool".to_string(),
        input_schema: ToolInputSchema::object(json("{}"), None),
    };
    let wire = to_value(&tool.to_json());
    assert_eq!(wire["inputSchema"], value(r#"{"type": "object", "properties": {}}"#));
    assert!(wire.get("input_schema").is_none());
    assert_eq!(wire["name"], "example");
    assert_eq!(wire["description"], "example tool");
    let required =
        ToolInputSchema::object(json(r#"{"a": {}}"#), Some(vec!["a".to_string()]));
    assert_eq!(
        to_value(&Json::Object(required.into_object())),
        value(r#"{"type": "object", "properties": {"a": {}}, "required": ["a"]}"#)
    );
}

#[test]
fn complete_input_schema_object_round_trips_without_projection() {
    let text = r##"{
        "$schema": "https://json-schema.org/draft/2020-12/schema",
        "type": "object",
        "$defs": {"selector": {"type": "string"}},
        "allOf": [{"$ref": "#/$defs/selector"}],
        "x-atlas-future-keyword": {"enabled": true}
    }"##;
    let schema = ToolInputSchema::from_object(object(text));
    assert_eq!(
        schema.get("type").and_then(|v| v.as_str()),
        Some("object")
    );
    assert!(schema.get("absent").is_none());
    assert_eq!(schema.as_object().len(), 5);
    assert_eq!(to_value(&Json::Object(schema.into_object())), value(text));
}

#[test]
fn rmcp_tool_conversion_preserves_complete_input_schema_object() {
    let text = r##"{
        "$schema": "https://json-schema.org/draft/2020-12/schema",
        "type": "object",
        "$defs": {
            "selector": {
                "oneOf": [
                    {"type": "string"},
                    {"type": "object", "required": ["qualified_name"]}
                ]
            }
        },
        "properties": {"symbol": {"$ref": "#/$defs/selector"}},
        "required": ["symbol"],
        "if": {"required": ["symbol"]},
        "then": {"additionalProperties": false},
        "else": {"maxProperties": 0},
        "oneOf": [{"required": ["symbol"]}],
        "additionalProperties": false,
        "x-atlas-future-keyword": {"preserve": true}
    }"##;
    let tool = Tool {
        name: "schema_fidelity".to_string(),
        description: "schema fidelity regression".to_string(),
        input_schema: ToolInputSchema::from_object(object(text)),
    };
    let catalog = list_tools_result(vec![tool], None);
    let kept = catalog.tools.into_iter().next().expect("the tool is kept");
    assert_eq!(to_value(&Json::Object(kept.input_schema.into_object())), value(text));
}
