use atlas_mcp::errors::{AdapterError, ErrorCode};
use atlas_mcp::json::{Json, JsonObject};
use atlas_mcp::json_text::{parse_json, to_value};
use atlas_mcp::overlay::{
    overlay_delete_target, ConfirmationQueue, MAX_PENDING_OVERLAY_DELETE_CONFIRMATIONS,
    OVERLAY_DELETE_CONFIRMATION_TTL_NANOS,
};
use atlas_mcp::responses::{InputRequired, PreparedAdapterToolCall, ToolResponse};

const ROOT: &str = "/work/overlay";
const DELETE_RULE: &str =
    r#"{"action": "delete", "rule_id": "rule:example", "client_note": "preserved"}"#;

type Prepared = Result<PreparedAdapterToolCall<u32>, AdapterError>;

fn json(text: &str) -> Json {
    parse_json(text).expect("JSON text")
}

fn responses(action: &str, confirmed: Option<bool>) -> JsonObject {
    let text = match confirmed {
        Some(confirmed) => format!(
            "{{\"confirm_overlay_delete\": {{\"action\": \"{}\", \"content\": {{\"confirm\": {}}}}}}}",
            action, confirmed
        ),
        None => format!("{{\"confirm_overlay_delete\": {{\"action\": \"{}\"}}}}", action),
    };
    match json(&text) {
        Json::Object(object) => object,
        _ => unreachable!(),
    }
}

/// Prepares a call while project `scope` is active.
fn prepare(
    queue: &mut ConfirmationQueue<u32>,
    now: u64,
    scope: u32,
    tool: &str,
    args: &str,
    answers: Option<&JsonObject>,
    state: Option<&str>,
) -> Prepared {
    queue.prepare_adapter_tool_call(
        now,
        tool,
        json(args),
        answers,
        state,
        true,
        true,
        Some((scope, ROOT.to_string())),
        4096,
    )
}

fn issue(
    queue: &mut ConfirmationQueue<u32>,
    now: u64,
    scope: u32,
    tool: &str,
    args: &str,
) -> (String, InputRequired) {
    match prepare(queue, now, scope, tool, args, None, None) {
        Ok(prepared) => {
            assert!(prepared.execution_router.is_none());
            match prepared.call.immediate_response {
                Some(ToolResponse::InputRequired(required)) => {
                    let state = required.request_state.clone().expect("a request state");
                    (state, required)
                },
                _ => panic!("the delete must be confirmed"),
            }
        },
        Err(error) => panic!("the delete should be offered: {}", error.message),
    }
}

fn refused(result: Prepared, code: ErrorCode) -> String {
    match result {
        Ok(_) => panic!("the call should be refused"),
        Err(error) => {
            assert_eq!(error.code, code);
            error.message
        },
    }
}

fn accepted(result: Prepared) -> PreparedAdapterToolCall<u32> {
    match result {
        Ok(prepared) => prepared,
        Err(error) => panic!("the call should be prepared: {}", error.message),
    }
}

fn required_wire(required: InputRequired) -> serde_json::Value {
    let form = rmcp::model::ElicitRequestParams::FormElicitationParams {
        meta: None,
        message: required.form.message,
        requested_schema: required.form.schema,
    };
    let mut requests = rmcp::model::InputRequests::new();
    requests.insert(
        required.input_id,
        rmcp::model::InputRequest::Elicitation(rmcp::model::ElicitRequest::new(form)),
    );
    let result = rmcp::model::InputRequiredResult::new(Some(requests), required.request_state);
    serde_json::to_value(result).expect("confirmation serializes")
}

#[test]
fn redeeming_clients_are_never_asked() {
    for forms in [true, false] {
        for answers in [responses("decline", None), responses("accept", Some(true))] {
            let mut queue: ConfirmationQueue<u32> = ConfirmationQueue::new();
            let (state, _) = issue(&mut queue, 0, 1, "domain_rules", DELETE_RULE);
            let prepared = accepted(queue.prepare_adapter_tool_call(
                0,
                "domain_rules",
                json(DELETE_RULE),
                Some(&answers),
                Some(&state),
                forms,
                true,
                None,
                4096,
            ));
            assert!(!matches!(
                prepared.call.immediate_response,
                Some(ToolResponse::InputRequired(_))
            ));
            assert_eq!(queue.len(), 0);
        }
    }
}

#[test]
fn overlay_delete_confirmation_is_gated_and_has_bounded_wire_shape() {
    let mut queue: ConfirmationQueue<u32> = ConfirmationQueue::new();
    let (state, required) = issue(&mut queue, 0, 1, "domain_rules", DELETE_RULE);
    let handle =
        uuid::Uuid::parse_str(&state).expect("the request state is an opaque UUID handle");
    assert_eq!(handle.get_version_num(), 4);
    assert_eq!(handle.to_string(), state);
    assert_eq!(required.input_id, "confirm_overlay_delete");
    let wire = required_wire(required);
    assert_eq!(wire["resultType"], "input_required");
    assert_eq!(wire["requestState"], state);
    let request = &wire["inputRequests"]["confirm_overlay_delete"];
    assert_eq!(request["method"], "elicitation/create");
    let schema = &request["params"]["requestedSchema"];
    assert_eq!(schema["required"], serde_json::from_str::<serde_json::Value>(r#"["confirm"]"#).unwrap());
    assert_eq!(schema["properties"]["confirm"]["type"], "boolean");
    assert_eq!(schema["properties"]["confirm"]["default"], false);
    let message = request["params"]["message"].as_str().expect("confirmation message");
    assert!(message.contains("rule:example"), "{}", message);
    assert!(message.contains(ROOT), "{}", message);
    assert_eq!(queue.len(), 1);

    let legacy = accepted(queue.prepare_adapter_tool_call(
        0,
        "domain_rules",
        json(DELETE_RULE),
        None,
        None,
        false,
        true,
        Some((1, ROOT.to_string())),
        4096,
    ));
    assert!(legacy.call.immediate_response.is_none());
    assert!(legacy.execution_router.is_none());

    for invalid in [
        r#"{"action": "list"}"#,
        r#"{"action": "delete"}"#,
        r#"{"action": "delete", "rule_id": ""}"#,
        r#"{"action": "delete", "rule_id": 7}"#,
    ] {
        let call = accepted(prepare(&mut queue, 0, 1, "domain_rules", invalid, None, None));
        assert!(call.call.immediate_response.is_none());
    }

    let mut unopened: ConfirmationQueue<u32> = ConfirmationQueue::new();
    let call = accepted(unopened.prepare_adapter_tool_call(
        0,
        "domain_rules",
        json(DELETE_RULE),
        None,
        None,
        true,
        false,
        None,
        4096,
    ));
    assert!(call.call.immediate_response.is_none());

    let (_, fp) = issue(
        &mut queue,
        0,
        1,
        "fp_dispatches",
        r#"{
            "action": "delete",
            "annotation_id": "fpa:preferred",
            "field_qname": "Ignored.field"
        }"#,
    );
    assert!(fp.form.message.contains("fpa:preferred"), "{}", fp.form.message);
    assert!(!fp.form.message.contains("Ignored.field"), "{}", fp.form.message);
}

#[test]
fn accepted_overlay_delete_is_one_shot_and_pinned_to_the_original_project() {
    let mut queue: ConfirmationQueue<u32> = ConfirmationQueue::new();
    let args = r#"{
        "action": "delete",
        "rule_id": "rule:shared_free",
        "client_note": "must remain bound"
    }"#;
    let (state, _) = issue(&mut queue, 0, 1, "domain_rules", args);
    let answers = responses("accept", Some(true));
    let prepared = accepted(prepare(
        &mut queue,
        1,
        2,
        "domain_rules",
        args,
        Some(&answers),
        Some(&state),
    ));
    assert!(prepared.call.immediate_response.is_none());
    assert_eq!(to_value(&prepared.call.args), to_value(&json(args)));
    assert_eq!(prepared.execution_router, Some(1));
    assert_eq!(queue.len(), 0);

    refused(
        prepare(&mut queue, 1, 2, "domain_rules", args, Some(&answers), Some(&state)),
        ErrorCode::InvalidParams,
    );
}

#[test]
fn declined_and_malformed_overlay_confirmations_never_delete() {
    let mut queue: ConfirmationQueue<u32> = ConfirmationQueue::new();
    let args = r#"{"action": "delete", "rule_id": "rule:keep_me"}"#;
    for (action, confirmed) in [("decline", None), ("cancel", None), ("accept", Some(false))] {
        let (state, _) = issue(&mut queue, 0, 1, "domain_rules", args);
        let answers = responses(action, confirmed);
        let prepared = accepted(prepare(
            &mut queue,
            0,
            1,
            "domain_rules",
            args,
            Some(&answers),
            Some(&state),
        ));
        assert!(prepared.execution_router.is_none());
        match prepared.call.immediate_response {
            Some(ToolResponse::Complete(result)) => {
                let text = result.as_sole_text().expect("one text");
                let body: serde_json::Value = serde_json::from_str(text).unwrap();
                assert_eq!(body["status"], "not_deleted");
                assert_eq!(body["reason"], "confirmation_declined");
                assert_eq!(body["ok"], false);
                assert_eq!(body["rule_id"], "rule:keep_me");
                assert_eq!(body["tool"], "domain_rules");
            },
            _ => panic!("a declined delete is complete"),
        }
    }

    let (state, _) = issue(&mut queue, 0, 1, "domain_rules", args);
    let malformed = responses("accept", None);
    refused(
        prepare(&mut queue, 0, 1, "domain_rules", args, Some(&malformed), Some(&state)),
        ErrorCode::InvalidParams,
    );
    let correct = responses("accept", Some(true));
    refused(
        prepare(&mut queue, 0, 1, "domain_rules", args, Some(&correct), Some(&state)),
        ErrorCode::InvalidParams,
    );
}

#[test]
fn overlay_confirmation_rejects_changed_arguments_missing_state_and_cross_flow_use() {
    let mut queue: ConfirmationQueue<u32> = ConfirmationQueue::new();
    let args = r#"{"action": "delete", "rule_id": "rule:bound", "client_note": "original"}"#;
    let changed = r#"{"action": "delete", "rule_id": "rule:bound", "client_note": "changed"}"#;
    let answers = responses("accept", Some(true));

    assert_eq!(
        refused(
            prepare(&mut queue, 0, 1, "domain_rules", args, Some(&answers), None),
            ErrorCode::InvalidParams,
        ),
        "overlay delete confirmation requestState is missing"
    );

    let (state, _) = issue(&mut queue, 0, 1, "domain_rules", args);
    refused(
        prepare(&mut queue, 0, 1, "domain_rules", changed, Some(&answers), Some(&state)),
        ErrorCode::InvalidParams,
    );
    assert_eq!(
        refused(
            prepare(&mut queue, 0, 1, "domain_rules", args, Some(&answers), Some(&state)),
            ErrorCode::InvalidParams,
        ),
        "overlay delete confirmation state is unknown, expired, or already used"
    );

    let (state, _) = issue(&mut queue, 0, 1, "domain_rules", args);
    refused(
        prepare(
            &mut queue,
            0,
            1,
            "project",
            r#"{"action": "status"}"#,
            Some(&answers),
            Some(&state),
        ),
        ErrorCode::InvalidParams,
    );
    assert_eq!(queue.len(), 0);
}

#[test]
fn overlay_confirmation_state_expires_is_bounded_and_redeems_atomically() {
    let mut queue: ConfirmationQueue<u32> = ConfirmationQueue::new();
    let args = r#"{"action": "delete", "rule_id": "rule:ttl"}"#;
    let answers = responses("accept", Some(true));
    let (state, _) = issue(&mut queue, 5, 1, "domain_rules", args);
    let late = 5 + OVERLAY_DELETE_CONFIRMATION_TTL_NANOS + 1_000_000_000;
    refused(
        prepare(&mut queue, late, 1, "domain_rules", args, Some(&answers), Some(&state)),
        ErrorCode::InvalidParams,
    );

    for index in 0..MAX_PENDING_OVERLAY_DELETE_CONFIRMATIONS {
        issue(
            &mut queue,
            late,
            1,
            "domain_rules",
            &format!("{{\"action\": \"delete\", \"rule_id\": \"rule:{}\"}}", index),
        );
    }
    assert_eq!(queue.len(), MAX_PENDING_OVERLAY_DELETE_CONFIRMATIONS);
    refused(
        prepare(
            &mut queue,
            late,
            1,
            "domain_rules",
            r#"{"action": "delete", "rule_id": "rule:overflow"}"#,
            None,
            None,
        ),
        ErrorCode::InternalError,
    );

    let mut queue: ConfirmationQueue<u32> = ConfirmationQueue::new();
    let args = r#"{"action": "delete", "rule_id": "rule:race"}"#;
    let (state, _) = issue(&mut queue, 0, 1, "domain_rules", args);
    let mut won: usize = 0;
    for _ in 0..2 {
        let prepared =
            prepare(&mut queue, 0, 1, "domain_rules", args, Some(&answers), Some(&state));
        won += usize::from(prepared.is_ok());
    }
    assert_eq!(won, 1, "only one redemption may win");
}

#[test]
fn offers_stand_for_their_whole_time() {
    let mut queue: ConfirmationQueue<u32> = ConfirmationQueue::new();
    issue(&mut queue, 10, 1, "domain_rules", DELETE_RULE);
    queue.prune_overlay_delete_confirmations(10 + OVERLAY_DELETE_CONFIRMATION_TTL_NANOS - 1);
    assert_eq!(queue.len(), 1);
    queue.prune_overlay_delete_confirmations(10 + OVERLAY_DELETE_CONFIRMATION_TTL_NANOS + 1);
    assert_eq!(queue.len(), 0);
}

#[test]
fn handles_differ_between_offers() {
    let mut queue: ConfirmationQueue<u32> = ConfirmationQueue::new();
    let (first, _) = issue(&mut queue, 0, 1, "domain_rules", DELETE_RULE);
    let (second, _) = issue(&mut queue, 0, 1, "domain_rules", DELETE_RULE);
    assert_ne!(first, second);
    assert_eq!(queue.len(), 2);
}

#[test]
fn delete_targets_are_read_from_the_arguments() {
    let describe = |tool: &str, args: &str| {
        overlay_delete_target(tool, &json(args)).map(|target| target.description())
    };
    assert_eq!(
        describe("domain_rules", DELETE_RULE),
        Some("domain rule `rule:example`".to_string())
    );
    assert_eq!(
        describe("fp_dispatches", r#"{"action": "delete", "annotation_id": "fpa:1"}"#),
        Some("function-pointer annotation `fpa:1`".to_string())
    );
    assert!(describe("fp_dispatches", r#"{"action": "delete", "field_qname": "S.f"}"#)
        .expect("a target")
        .contains("S.f"));
    assert_eq!(describe("search", DELETE_RULE), None);
    let target = overlay_delete_target("domain_rules", &json(DELETE_RULE)).expect("a target");
    assert_eq!(
        to_value(&Json::Object(target.result_fields()))["rule_id"],
        "rule:example"
    );
}

#[test]
fn other_tools_take_no_input_responses() {
    let mut queue: ConfirmationQueue<u32> = ConfirmationQueue::new();
    let answers = responses("accept", Some(true));
    assert_eq!(
        refused(
            prepare(&mut queue, 0, 1, "search", r#"{"query": "x"}"#, Some(&answers), None),
            ErrorCode::InvalidParams,
        ),
        "this tool does not accept MCP inputResponses"
    );
}
