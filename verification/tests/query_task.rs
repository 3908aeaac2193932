use atlas_mcp::json::Json;
use atlas_mcp::json_text::{parse_json, to_value};
use atlas_mcp::protocol::CallToolResult;
use atlas_mcp::query_task::{
    query_task_expired, QueryTask, RetryableQuery, TaskAction, TaskEvent, TaskExit,
};

fn json(text: &str) -> Json {
    parse_json(text).expect("JSON text")
}

fn retry(query_id: &str, delay: u64) -> TaskEvent {
    TaskEvent::ToolReturned(CallToolResult::of_text(
        format!(
            "{{\"query_id\": \"{}\", \"analysis\": {{\"retry_after_ms\": {}}}}}",
            query_id, delay
        ),
        false,
    ))
}

fn done(text: &str) -> TaskEvent {
    TaskEvent::ToolReturned(CallToolResult::of_text(text.to_string(), false))
}

fn ambiguous() -> TaskEvent {
    done(
        r#"{
            "symbol": "shared_func",
            "ambiguous": true,
            "candidates": [
                {"qualified_name": "shared_func", "file_path": "src/a.rs", "line": 10,
                 "symbol_ref": {"qualified_name": "shared_func", "file_path": "src/a.rs"}},
                {"qualified_name": "shared_func", "file_path": "src/b.rs", "line": 20,
                 "symbol_ref": {"qualified_name": "shared_func", "file_path": "src/b.rs"}}
            ]
        }"#,
    )
}

fn explore_task(allow: bool) -> QueryTask {
    let (task, action) = QueryTask::start(
        RetryableQuery { query_id: "q".to_string(), retry_after_ms: 1 },
        "explore".to_string(),
        json(r#"{"symbol": "shared_func", "relation_limit": 7}"#),
        allow,
    );
    assert!(matches!(action, TaskAction::Sleep { delay_ms: 250 }));
    task
}

fn called(action: TaskAction) -> (String, serde_json::Value) {
    match action {
        TaskAction::CallTool { tool_name, args, .. } => (tool_name, to_value(&args)),
        _ => panic!("a tool is called"),
    }
}

fn finished(action: TaskAction) -> String {
    match action {
        TaskAction::Finish(result) => result.as_sole_text().expect("one text").to_string(),
        _ => panic!("the task finishes"),
    }
}

fn failed(action: TaskAction) -> String {
    match action {
        TaskAction::Exit(TaskExit::Error(error)) => error.message,
        _ => panic!("the task fails"),
    }
}

#[test]
fn tasks_resume_their_query_until_it_is_done() {
    let mut task = explore_task(false);
    for delay in [500, 90_000] {
        let (tool, args) = called(task.step(TaskEvent::Slept));
        assert_eq!(tool, "resume_query");
        assert_eq!(args["query_id"], "q");
        match task.step(retry("q", delay)) {
            TaskAction::Sleep { delay_ms } => assert_eq!(delay_ms, delay.min(60_000)),
            _ => panic!("the task waits again"),
        }
    }
    called(task.step(TaskEvent::Slept));
    assert_eq!(finished(task.step(done(r#"{"ok": true}"#))), r#"{"ok": true}"#);
    assert!(matches!(task.step(TaskEvent::Slept), TaskAction::Ignore));
}

#[test]
fn tool_errors_end_a_task_as_its_result() {
    let error = || {
        TaskEvent::ToolReturned(CallToolResult::of_text(
            r#"{"query_id": "q", "analysis": {"retry_after_ms": 5}}"#.to_string(),
            true,
        ))
    };
    let is_completed_error = |action: TaskAction| match action {
        TaskAction::Finish(result) => result.is_error == Some(true),
        _ => false,
    };
    let mut task = explore_task(true);
    called(task.step(TaskEvent::Slept));
    assert!(is_completed_error(task.step(error())));
    assert!(matches!(task.step(TaskEvent::Slept), TaskAction::Ignore));

    let mut task = explore_task(true);
    called(task.step(TaskEvent::Slept));
    task.step(ambiguous());
    called(task.step(TaskEvent::InputReceived(json(
        r#"{"action": "accept", "content": {"selection": "{\"file_path\":\"src/b.rs\"}"}}"#,
    ))));
    assert!(is_completed_error(task.step(error())));
}

#[test]
fn tasks_do_not_change_their_query() {
    let mut task = explore_task(false);
    called(task.step(TaskEvent::Slept));
    assert_eq!(
        failed(task.step(retry("other", 500))),
        "Atlas task replay changed query identity"
    );
}

#[test]
fn tasks_end_on_cancellation_and_on_time() {
    let mut task = explore_task(false);
    assert!(matches!(
        task.step(TaskEvent::Cancelled),
        TaskAction::Exit(TaskExit::Cancelled)
    ));
    let mut task = explore_task(false);
    called(task.step(TaskEvent::Slept));
    assert_eq!(failed(task.step(TaskEvent::DeadlinePassed)), query_task_expired().message);
}

#[test]
fn tasks_ask_for_one_choice() {
    let mut task = explore_task(true);
    called(task.step(TaskEvent::Slept));
    match task.step(ambiguous()) {
        TaskAction::RequestInput { input_id, status, .. } => {
            assert_eq!(input_id, "explore_symbol_selection");
            assert_eq!(status, "Atlas needs an exact symbol selection");
        },
        _ => panic!("the task asks"),
    }
    let (tool, args) = called(task.step(TaskEvent::InputReceived(json(
        r#"{"action": "accept", "content": {"selection": "{\"file_path\":\"src/b.rs\"}"}}"#,
    ))));
    assert_eq!(tool, "explore");
    assert_eq!(args["symbol"]["file_path"], "src/b.rs");
    assert_eq!(args["relation_limit"], 7);
    match task.step(retry("q2", 300)) {
        TaskAction::BindReplay { query_id } => assert_eq!(query_id, "q2"),
        _ => panic!("the task binds the new query"),
    }
    assert!(matches!(
        task.step(TaskEvent::ReplayBound(Some("explore".to_string()))),
        TaskAction::Sleep { delay_ms: 300 }
    ));
    called(task.step(TaskEvent::Slept));
    assert!(matches!(task.step(ambiguous()), TaskAction::Finish(_)));
}

#[test]
fn tasks_finish_with_the_candidates_when_the_choice_is_declined() {
    let mut task = explore_task(true);
    called(task.step(TaskEvent::Slept));
    task.step(ambiguous());
    let text = finished(task.step(TaskEvent::InputReceived(json(r#"{"action": "decline"}"#))));
    assert!(text.contains("candidates"));
}

#[test]
fn tasks_fail_on_a_malformed_choice_and_an_unbound_query() {
    let mut task = explore_task(true);
    called(task.step(TaskEvent::Slept));
    task.step(ambiguous());
    failed(task.step(TaskEvent::InputReceived(json(r#"{"action": "accept"}"#))));

    let mut task = explore_task(true);
    called(task.step(TaskEvent::Slept));
    task.step(ambiguous());
    called(task.step(TaskEvent::InputReceived(json(
        r#"{"action": "accept", "content": {"selection": "{\"file_path\":\"src/b.rs\"}"}}"#,
    ))));
    task.step(retry("q2", 300));
    assert_eq!(
        failed(task.step(TaskEvent::ReplayBound(None))),
        "Atlas selected explore retry could not bind its snapshot"
    );
}
