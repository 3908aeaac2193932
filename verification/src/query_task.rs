//! Queries that are not finished yet: when a result asks to be retried, and how a
//! background task follows such a query to its end.

use vstd::prelude::*;

use crate::errors::{broken, refused, AdapterError, AdapterErrorView};
use crate::explore_candidates::{
    asks_to_choose, candidate_choice, choosable, explore_candidate_input_request,
    prepare_explore_candidate_response, read_result_body, result_body, Choice,
    ExploreCandidateDecision,
};
use crate::forms::FormRequest;
use crate::json::{json_view, no_fields, Json, JsonObject, JsonView};
use crate::protocol::CallToolResult;
use crate::text::{same_text, string_view, trim, trimmed};

verus! {

/// The shortest delay between two polls, in milliseconds.
pub const MIN_QUERY_TASK_POLL_MS: u64 = 250;

/// The longest delay between two polls, in milliseconds.
pub const MAX_QUERY_TASK_POLL_MS: u64 = 60_000;

/// A query that is to be retried.
pub struct RetryableQuery {
    pub query_id: String,
    pub retry_after_ms: u64,
}

/// A query that is to be retried.
#[verifier::ext_equal]
pub struct RetryView {
    pub query_id: Seq<char>,
    pub retry_after_ms: u64,
}

impl RetryableQuery {
    /// The query.
    pub open spec fn view(self) -> RetryView {
        RetryView { query_id: self.query_id@, retry_after_ms: self.retry_after_ms }
    }
}

/// The query that an optional retry is for.
pub open spec fn retry_view(retry: Option<RetryableQuery>) -> Option<RetryView> {
    match retry {
        Some(r) => Some(r@),
        None => None,
    }
}

/// The query that a response body asks to retry: it has an identifier that is not
/// blank, and a positive delay under `analysis`.
pub open spec fn retry_of(body: Option<JsonView>) -> Option<RetryView> {
    match body {
        Some(b) => match (b.text_field("query_id"@), b.field("analysis"@)) {
            (Some(id), Some(analysis)) => match analysis.unsigned_field("retry_after_ms"@) {
                Some(delay) => if trimmed(id).len() > 0 && delay > 0 {
                    Some(RetryView { query_id: trimmed(id), retry_after_ms: delay })
                } else {
                    None
                },
                None => None,
            },
            _ => None,
        },
        None => None,
    }
}

/// The query that a response body, as far as it was read, asks to retry.
pub fn retryable_body(body: Option<Json>) -> (retry: Option<RetryableQuery>)
    ensures
        retry_view(retry) == retry_of(json_view(body)),
{
    let body = match body {
        Some(body) => body,
        None => {
            return None;
        },
    };
    let query_id = match body.get_str("query_id") {
        Some(id) => trim(id),
        None => {
            return None;
        },
    };
    if query_id.as_str().is_empty() {
        return None;
    }
    let retry_after_ms: u64 = match body.get("analysis") {
        Some(analysis) => match analysis.get_u64("retry_after_ms") {
            Some(delay) => delay,
            None => {
                return None;
            },
        },
        None => {
            return None;
        },
    };
    if retry_after_ms == 0 {
        return None;
    }
    Some(RetryableQuery { query_id, retry_after_ms })
}

/// The query that a tool result asks to retry.
pub fn retryable_query(result: &CallToolResult) -> (retry: Option<RetryableQuery>)
    ensures
        retry_view(retry) == retry_of(result_body(*result)),
{
    retryable_body(read_result_body(result))
}

/// A delay within the polling bounds.
pub open spec fn poll_delay(retry_after_ms: u64) -> u64 {
    if retry_after_ms < MIN_QUERY_TASK_POLL_MS {
        MIN_QUERY_TASK_POLL_MS
    } else if retry_after_ms > MAX_QUERY_TASK_POLL_MS {
        MAX_QUERY_TASK_POLL_MS
    } else {
        retry_after_ms
    }
}

/// The suggested delay, brought within the polling bounds.
pub fn bounded_query_task_poll_ms(retry_after_ms: u64) -> (delay: u64)
    ensures
        delay == poll_delay(retry_after_ms),
        MIN_QUERY_TASK_POLL_MS <= delay <= MAX_QUERY_TASK_POLL_MS,
{
    if retry_after_ms < MIN_QUERY_TASK_POLL_MS {
        MIN_QUERY_TASK_POLL_MS
    } else if retry_after_ms > MAX_QUERY_TASK_POLL_MS {
        MAX_QUERY_TASK_POLL_MS
    } else {
        retry_after_ms
    }
}

/// Whether results of a tool may be turned into tasks: an exploration may need a
/// choice, so it takes a client that can fill in forms.
pub fn query_task_supported_for_tool(
    tool_name: &str,
    query_tasks_supported: bool,
    form_mrtr_supported: bool,
) -> (supported: bool)
    ensures
        supported == (query_tasks_supported && (tool_name@ != "explore"@ || form_mrtr_supported)),
{
    query_tasks_supported && (!same_text(tool_name, "explore") || form_mrtr_supported)
}

/// What a task is waiting for.
pub enum TaskPhase {
    /// The delay before the next poll.
    Waiting,
    /// The result of resuming the query.
    Resuming,
    /// The client's choice among the candidates of this result.
    Choosing(CallToolResult),
    /// The result of exploring the chosen symbol.
    Selecting,
    /// Whether the snapshot of this query belongs to an exploration.
    Binding(RetryableQuery),
    /// Nothing any more.
    Finished,
}

/// A background task that follows a query.
pub struct QueryTask {
    pub retry: RetryableQuery,
    pub tool_name: String,
    pub tool_args: Json,
    pub allow_candidate_input: bool,
    pub candidate_input_used: bool,
    pub phase: TaskPhase,
}

/// Something that happened to a task.
pub enum TaskEvent {
    Cancelled,
    DeadlinePassed,
    Slept,
    ToolReturned(CallToolResult),
    /// The tool could not be run.
    ToolFailed(AdapterError),
    InputReceived(Json),
    /// The tool whose query was pinned, if there is one.
    ReplayBound(Option<String>),
}

/// Why a task ended without a result.
pub enum TaskExit {
    Cancelled,
    Error(AdapterError),
}

/// What a task does next.
pub enum TaskAction {
    Sleep { delay_ms: u64 },
    CallTool { tool_name: String, args: Json, report: Option<String> },
    RequestInput { input_id: String, form: FormRequest, status: String },
    BindReplay { query_id: String },
    Finish(CallToolResult),
    Exit(TaskExit),
    /// The event does not concern the task.
    Ignore,
}

/// The error of a task that ran out of time.
pub open spec fn expired_error() -> AdapterErrorView {
    broken("Atlas query task expired before Focus analysis completed"@, None)
}

/// The error of a task that ran out of time.
pub fn query_task_expired() -> (error: AdapterError)
    ensures
        error@ == expired_error(),
{
    AdapterError::internal_error("Atlas query task expired before Focus analysis completed", None)
}

/// The error of a resumed query that answers for another query.
pub open spec fn identity_error(expected: Seq<char>, actual: Seq<char>) -> AdapterErrorView {
    broken(
        "Atlas task replay changed query identity"@,
        Some(
            JsonView::Object(
                no_fields().insert("expected"@, JsonView::Str(expected)).insert(
                    "actual"@,
                    JsonView::Str(actual),
                ),
            ),
        ),
    )
}

/// The error of a chosen exploration whose query cannot be followed.
pub open spec fn binding_error(query_id: Seq<char>) -> AdapterErrorView {
    broken(
        "Atlas selected explore retry could not bind its snapshot"@,
        Some(JsonView::Object(no_fields().insert("query_id"@, JsonView::Str(query_id)))),
    )
}

impl TaskAction {
    /// Whether the task ends with an error.
    pub open spec fn fails_with(self, error: AdapterErrorView) -> bool {
        self matches TaskAction::Exit(TaskExit::Error(e)) && e@ == error
    }

    /// Whether a tool is to be run.
    pub open spec fn calls(self, name: Seq<char>, with: JsonView, said: Option<Seq<char>>) -> bool {
        self matches TaskAction::CallTool { tool_name, args, report } && tool_name@ == name && args@
            == with && string_view(report) == said
    }
}

/// The arguments with which a query is resumed.
pub open spec fn resume_args(query_id: Seq<char>) -> JsonView {
    JsonView::Object(no_fields().insert("query_id"@, JsonView::Str(query_id)))
}

/// Whether a task may still ask for a choice, and this result has one.
pub open spec fn may_choose(task: QueryTask, result: CallToolResult) -> bool {
    task.allow_candidate_input && !task.candidate_input_used && task.tool_name@ == "explore"@ && (
    result_body(result) matches Some(body) && choosable(body) is Some)
}

/// Whether two tasks follow the same call.
pub open spec fn same_call(a: QueryTask, b: QueryTask) -> bool {
    a.tool_name == b.tool_name && a.tool_args == b.tool_args && a.allow_candidate_input
        == b.allow_candidate_input
}

/// The step of a task that resumed its query and got a result.
pub open spec fn resumed(
    before: QueryTask,
    result: CallToolResult,
    after: QueryTask,
    action: TaskAction,
) -> bool {
    match retry_of(result_body(result)) {
        Some(next) => after.candidate_input_used == before.candidate_input_used && if next.query_id
            != before.retry@.query_id {
            after.phase is Finished && after.retry@ == before.retry@ && action.fails_with(
                identity_error(before.retry@.query_id, next.query_id),
            )
        } else {
            after.phase is Waiting && after.retry@ == next && action == (TaskAction::Sleep {
                delay_ms: poll_delay(next.retry_after_ms),
            })
        },
        None => after.retry@ == before.retry@ && if may_choose(before, result) {
            after.candidate_input_used && after.phase == TaskPhase::Choosing(result) && (
            action matches TaskAction::RequestInput { input_id, form, status } && input_id@
                == "explore_symbol_selection"@ && status@
                == "Atlas needs an exact symbol selection"@ && asks_to_choose(
                Some(form),
                result_body(result),
            ))
        } else {
            after.candidate_input_used == before.candidate_input_used && after.phase is Finished
                && action == TaskAction::Finish(result)
        },
    }
}

/// The step of a task that got the client's choice about `result`.
pub open spec fn chosen(
    before: QueryTask,
    result: CallToolResult,
    response: JsonView,
    after: QueryTask,
    action: TaskAction,
) -> bool {
    match candidate_choice(before.tool_args@, response) {
        Choice::Accept(args) => after.phase is Selecting && action.calls(
            "explore"@,
            args,
            Some("Atlas is completing the selected Focus analysis"@),
        ),
        Choice::Decline => after.phase is Finished && action == TaskAction::Finish(result),
        Choice::Refuse(message) => after.phase is Finished && action.fails_with(refused(message)),
    }
}

/// The step of a task that explored the chosen symbol.
pub open spec fn explored(result: CallToolResult, after: QueryTask, action: TaskAction) -> bool {
    match retry_of(result_body(result)) {
        Some(next) => (after.phase matches TaskPhase::Binding(r) && r@ == next) && (
        action matches TaskAction::BindReplay { query_id } && query_id@ == next.query_id),
        None => after.phase is Finished && action == TaskAction::Finish(result),
    }
}

/// The step of a task that learned whose query `next` is.
pub open spec fn bound(
    before: QueryTask,
    next: RetryableQuery,
    tool: Option<Seq<char>>,
    after: QueryTask,
    action: TaskAction,
) -> bool {
    if tool == Some("explore"@) {
        after.phase is Waiting && after.retry@ == next@ && action == (TaskAction::Sleep {
            delay_ms: poll_delay(next.retry_after_ms),
        })
    } else {
        after.phase is Finished && after.retry@ == before.retry@ && action.fails_with(
            binding_error(next.query_id@),
        )
    }
}

/// Whether a task goes from `before` to `after` on an event, and does `action`.
pub open spec fn steps(
    before: QueryTask,
    event: TaskEvent,
    after: QueryTask,
    action: TaskAction,
) -> bool {
    &&& same_call(before, after)
    &&& match (before.phase, event) {
        (TaskPhase::Finished, _) => after == before && action is Ignore,
        (_, TaskEvent::Cancelled) => after.phase is Finished && after.retry@ == before.retry@
            && after.candidate_input_used == before.candidate_input_used && action
            == TaskAction::Exit(TaskExit::Cancelled),
        (_, TaskEvent::DeadlinePassed) => after.phase is Finished && after.retry@ == before.retry@
            && after.candidate_input_used == before.candidate_input_used && action.fails_with(
            expired_error(),
        ),
        (TaskPhase::Waiting, TaskEvent::Slept) => after.phase is Resuming && after.retry@
            == before.retry@ && after.candidate_input_used == before.candidate_input_used
            && action.calls("resume_query"@, resume_args(before.retry@.query_id), None),
        (TaskPhase::Resuming, TaskEvent::ToolReturned(result)) => resumed(
            before,
            result,
            after,
            action,
        ),
        (TaskPhase::Resuming, TaskEvent::ToolFailed(error)) => after.phase is Finished
            && after.retry@ == before.retry@ && after.candidate_input_used
            == before.candidate_input_used && action.fails_with(error@),
        (TaskPhase::Choosing(result), TaskEvent::InputReceived(response)) => after.retry@
            == before.retry@ && after.candidate_input_used == before.candidate_input_used
            && chosen(before, result, response@, after, action),
        (TaskPhase::Choosing(_), TaskEvent::ToolFailed(error)) => after.phase is Finished
            && after.retry@ == before.retry@ && after.candidate_input_used
            == before.candidate_input_used && action.fails_with(error@),
        (TaskPhase::Selecting, TaskEvent::ToolReturned(result)) => after.retry@ == before.retry@
            && after.candidate_input_used == before.candidate_input_used && explored(
            result,
            after,
            action,
        ),
        (TaskPhase::Selecting, TaskEvent::ToolFailed(error)) => after.phase is Finished
            && after.retry@ == before.retry@ && after.candidate_input_used
            == before.candidate_input_used && action.fails_with(error@),
        (TaskPhase::Binding(next), TaskEvent::ReplayBound(tool)) => after.candidate_input_used
            == before.candidate_input_used && bound(before, next, string_view(tool), after, action),
        _ => after == before && action is Ignore,
    }
}

fn query_args(query_id: &str) -> (args: Json)
    ensures
        args@ == resume_args(query_id@),
{
    let mut object = JsonObject::new();
    object.put("query_id", Json::text(query_id));
    Json::Object(object)
}

impl QueryTask {
    /// A task that follows a query, and its first action: to wait.
    pub fn start(
        retry: RetryableQuery,
        tool_name: String,
        tool_args: Json,
        allow_candidate_input: bool,
    ) -> (started: (QueryTask, TaskAction))
        ensures
            started.0.retry == retry,
            started.0.tool_name == tool_name,
            started.0.tool_args == tool_args,
            started.0.allow_candidate_input == allow_candidate_input,
            !started.0.candidate_input_used,
            started.0.phase is Waiting,
            started.1 == (TaskAction::Sleep { delay_ms: poll_delay(retry.retry_after_ms) }),
    {
        let delay_ms: u64 = bounded_query_task_poll_ms(retry.retry_after_ms);
        (
            QueryTask {
                retry,
                tool_name,
                tool_args,
                allow_candidate_input,
                candidate_input_used: false,
                phase: TaskPhase::Waiting,
            },
            TaskAction::Sleep { delay_ms },
        )
    }

    fn on_resumed(&mut self, result: CallToolResult) -> (action: TaskAction)
        requires
            old(self).phase is Finished,
        ensures
            same_call(*old(self), *final(self)),
            resumed(*old(self), result, *final(self), action),
    {
        match retryable_query(&result) {
            Some(next) => {
                if !same_text(next.query_id.as_str(), self.retry.query_id.as_str()) {
                    let mut data = JsonObject::new();
                    data.put("expected", Json::text(self.retry.query_id.as_str()));
                    data.put("actual", Json::text(next.query_id.as_str()));
                    return TaskAction::Exit(
                        TaskExit::Error(
                            AdapterError::internal_error(
                                "Atlas task replay changed query identity",
                                Some(Json::Object(data)),
                            ),
                        ),
                    );
                }
                let delay_ms: u64 = bounded_query_task_poll_ms(next.retry_after_ms);
                self.retry = next;
                self.phase = TaskPhase::Waiting;
                return TaskAction::Sleep { delay_ms };
            },
            None => {},
        }
        if self.allow_candidate_input && !self.candidate_input_used && same_text(
            self.tool_name.as_str(),
            "explore",
        ) {
            match explore_candidate_input_request(&result) {
                Some(form) => {
                    self.candidate_input_used = true;
                    self.phase = TaskPhase::Choosing(result);
                    return TaskAction::RequestInput {
                        input_id: "explore_symbol_selection".to_owned(),
                        form,
                        status: "Atlas needs an exact symbol selection".to_owned(),
                    };
                },
                None => {},
            }
        }
        TaskAction::Finish(result)
    }

    fn on_chosen(&mut self, result: CallToolResult, response: &Json) -> (action: TaskAction)
        requires
            old(self).phase is Finished,
        ensures
            same_call(*old(self), *final(self)),
            final(self).retry@ == old(self).retry@,
            final(self).candidate_input_used == old(self).candidate_input_used,
            chosen(*old(self), result, response@, *final(self), action),
    {
        match prepare_explore_candidate_response(&self.tool_args, response) {
            Ok(ExploreCandidateDecision::Accept(args)) => {
                self.phase = TaskPhase::Selecting;
                TaskAction::CallTool {
                    tool_name: "explore".to_owned(),
                    args,
                    report: Some("Atlas is completing the selected Focus analysis".to_owned()),
                }
            },
            Ok(ExploreCandidateDecision::Decline) => TaskAction::Finish(result),
            Err(error) => TaskAction::Exit(TaskExit::Error(error)),
        }
    }

    fn on_explored(&mut self, result: CallToolResult) -> (action: TaskAction)
        requires
            old(self).phase is Finished,
        ensures
            same_call(*old(self), *final(self)),
            final(self).retry@ == old(self).retry@,
            final(self).candidate_input_used == old(self).candidate_input_used,
            explored(result, *final(self), action),
    {
        match retryable_query(&result) {
            Some(next) => {
                let query_id = next.query_id.clone();
                self.phase = TaskPhase::Binding(next);
                TaskAction::BindReplay { query_id }
            },
            None => TaskAction::Finish(result),
        }
    }

    fn on_bound(&mut self, next: RetryableQuery, tool: Option<String>) -> (action: TaskAction)
        requires
            old(self).phase is Finished,
        ensures
            same_call(*old(self), *final(self)),
            final(self).candidate_input_used == old(self).candidate_input_used,
            bound(*old(self), next, string_view(tool), *final(self), action),
    {
        let is_explore = match tool {
            Some(name) => same_text(name.as_str(), "explore"),
            None => false,
        };
        if is_explore {
            let delay_ms: u64 = bounded_query_task_poll_ms(next.retry_after_ms);
            self.retry = next;
            self.phase = TaskPhase::Waiting;
            TaskAction::Sleep { delay_ms }
        } else {
            TaskAction::Exit(
                TaskExit::Error(
                    AdapterError::internal_error(
                        "Atlas selected explore retry could not bind its snapshot",
                        Some(query_args(next.query_id.as_str())),
                    ),
                ),
            )
        }
    }

    /// Takes one step: the next state and the next action, by what happened.
    pub fn step(&mut self, event: TaskEvent) -> (action: TaskAction)
        ensures
            steps(*old(self), event, *final(self), action),
    {
        let mut phase = TaskPhase::Finished;
        std::mem::swap(&mut phase, &mut self.phase);
        match (phase, event) {
            (TaskPhase::Finished, _) => TaskAction::Ignore,
            (_, TaskEvent::Cancelled) => TaskAction::Exit(TaskExit::Cancelled),
            (_, TaskEvent::DeadlinePassed) => TaskAction::Exit(
                TaskExit::Error(query_task_expired()),
            ),
            (TaskPhase::Waiting, TaskEvent::Slept) => {
                self.phase = TaskPhase::Resuming;
                TaskAction::CallTool {
                    tool_name: "resume_query".to_owned(),
                    args: query_args(self.retry.query_id.as_str()),
                    report: None,
                }
            },
            (TaskPhase::Resuming, TaskEvent::ToolReturned(result)) => self.on_resumed(result),
            (TaskPhase::Resuming, TaskEvent::ToolFailed(error)) => TaskAction::Exit(
                TaskExit::Error(error),
            ),
            (TaskPhase::Choosing(result), TaskEvent::InputReceived(response)) => self.on_chosen(
                result,
                &response,
            ),
            (TaskPhase::Choosing(_), TaskEvent::ToolFailed(error)) => TaskAction::Exit(
                TaskExit::Error(error),
            ),
            (TaskPhase::Selecting, TaskEvent::ToolReturned(result)) => self.on_explored(result),
            (TaskPhase::Selecting, TaskEvent::ToolFailed(error)) => TaskAction::Exit(
                TaskExit::Error(error),
            ),
            (TaskPhase::Binding(next), TaskEvent::ReplayBound(tool)) => self.on_bound(next, tool),
            (other, _) => {
                self.phase = other;
                TaskAction::Ignore
            },
        }
    }
}

/// A task asks for a choice at most once: it asks only if it has not asked, and
/// once it has, it stays so.
pub proof fn law_one_choice_per_task(
    before: QueryTask,
    event: TaskEvent,
    after: QueryTask,
    action: TaskAction,
)
    requires
        steps(before, event, after, action),
    ensures
        action is RequestInput ==> !before.candidate_input_used && after.candidate_input_used,
        before.candidate_input_used ==> after.candidate_input_used,
{
}

/// A task asks for a choice only where that was allowed for its call.
pub proof fn law_choice_needs_permission(
    before: QueryTask,
    event: TaskEvent,
    after: QueryTask,
    action: TaskAction,
)
    requires
        steps(before, event, after, action),
        action is RequestInput,
    ensures
        before.allow_candidate_input && before.tool_name@ == "explore"@,
{
}

/// A task changes the query that it follows only when it was told that the query
/// of the chosen symbol belongs to an exploration.
pub proof fn law_query_identity_is_kept(
    before: QueryTask,
    event: TaskEvent,
    after: QueryTask,
    action: TaskAction,
)
    requires
        steps(before, event, after, action),
        after.retry@.query_id != before.retry@.query_id,
    ensures
        before.phase matches TaskPhase::Binding(next) && after.retry@ == next@,
        event matches TaskEvent::ReplayBound(tool) && string_view(tool) == Some("explore"@),
{
}

/// Whenever a task sleeps, it does so within the polling bounds.
pub proof fn law_polling_is_bounded(
    before: QueryTask,
    event: TaskEvent,
    after: QueryTask,
    action: TaskAction,
)
    requires
        steps(before, event, after, action),
    ensures
        action matches TaskAction::Sleep { delay_ms } ==> MIN_QUERY_TASK_POLL_MS <= delay_ms
            <= MAX_QUERY_TASK_POLL_MS,
{
}

/// An error of the tool itself is no error of the task: the task is complete, and its
/// result is what the tool returned.
pub proof fn law_tool_errors_complete_the_task(
    before: QueryTask,
    result: CallToolResult,
    after: QueryTask,
    action: TaskAction,
)
    requires
        steps(before, TaskEvent::ToolReturned(result), after, action),
        before.phase is Resuming || before.phase is Selecting,
        result.is_error == Some(true),
    ensures
        action == TaskAction::Finish(result),
        after.phase is Finished,
{
}

/// A task that ended stays ended, and cancellation and the deadline end every
/// task that has not.
pub proof fn law_tasks_end(
    before: QueryTask,
    event: TaskEvent,
    after: QueryTask,
    action: TaskAction,
)
    requires
        steps(before, event, after, action),
    ensures
        before.phase is Finished ==> after.phase is Finished && action is Ignore,
        event is Cancelled || event is DeadlinePassed ==> after.phase is Finished,
        action is Finish || action is Exit ==> after.phase is Finished,
{
}

/// A delay within the bounds is kept, and no two delays change places.
pub proof fn law_delays_within_the_bounds_are_kept(delay: u64, longer: u64)
    ensures
        MIN_QUERY_TASK_POLL_MS <= delay <= MAX_QUERY_TASK_POLL_MS ==> poll_delay(delay) == delay,
        delay <= longer ==> poll_delay(delay) <= poll_delay(longer),
        MIN_QUERY_TASK_POLL_MS <= poll_delay(delay) <= MAX_QUERY_TASK_POLL_MS,
{
}

/// A response asks to be retried exactly where it has an identifier that is not blank and a
/// delay that is not zero, and then under that identifier and after that delay.
pub proof fn law_retry_needs_identifier_and_delay(
    body: JsonView,
    id: Seq<char>,
    analysis: JsonView,
    delay: u64,
)
    requires
        body.text_field("query_id"@) == Some(id),
        body.field("analysis"@) == Some(analysis),
        analysis.unsigned_field("retry_after_ms"@) == Some(delay),
    ensures
        retry_of(Some(body)) matches Some(retry) ==> retry.query_id == trimmed(id)
            && retry.retry_after_ms == delay,
        retry_of(Some(body)) is None <==> trimmed(id).len() == 0 || delay == 0,
{
}

/// After each sleep the query that the task follows is resumed, and no other.
pub proof fn law_sleeping_tasks_resume_their_query(
    before: QueryTask,
    after: QueryTask,
    action: TaskAction,
)
    requires
        before.phase is Waiting,
        steps(before, TaskEvent::Slept, after, action),
    ensures
        action matches TaskAction::CallTool { tool_name, args, .. } && tool_name@
            == "resume_query"@ && args@.text_field("query_id"@) == Some(before.retry@.query_id),
        after.phase is Resuming,
{
}

/// A resumed query that asks to be retried again is waited for with its new delay; one that
/// does not, and leaves nothing to choose, completes the task with its result.
pub proof fn law_resumed_tasks_wait_or_end(
    before: QueryTask,
    result: CallToolResult,
    after: QueryTask,
    action: TaskAction,
)
    requires
        before.phase is Resuming,
        steps(before, TaskEvent::ToolReturned(result), after, action),
    ensures
        retry_of(result_body(result)) matches Some(next) ==> if next.query_id
            == before.retry@.query_id {
            action matches TaskAction::Sleep { delay_ms } && delay_ms == poll_delay(
                next.retry_after_ms,
            ) && after.phase is Waiting && after.retry@ == next
        } else {
            action matches TaskAction::Exit(TaskExit::Error(_))
        },
        retry_of(result_body(result)) is None ==> action is Finish || action is RequestInput,
        action matches TaskAction::Finish(returned) ==> returned == result,
{
}

/// A declined choice ends the task with the result that was to be chosen from; an accepted
/// one explores the symbol that was chosen, with the other arguments of the call.
pub proof fn law_choice_is_followed(
    before: QueryTask,
    result: CallToolResult,
    response: Json,
    after: QueryTask,
    action: TaskAction,
    arguments: Map<Seq<char>, JsonView>,
    name: Seq<char>,
)
    requires
        before.phase == TaskPhase::Choosing(result),
        before.tool_args@ == JsonView::Object(arguments),
        name != "symbol"@,
        steps(before, TaskEvent::InputReceived(response), after, action),
    ensures
        action matches TaskAction::Finish(returned) ==> returned == result,
        response@.text_field("action"@) == Some("decline"@) || response@.text_field("action"@)
            == Some("cancel"@) ==> action is Finish,
        action matches TaskAction::CallTool { tool_name, args, .. } ==> tool_name@ == "explore"@
            && response@.text_field("action"@) == Some("accept"@) && args@.field(name)
            == before.tool_args@.field(name) && (args@.field("symbol"@) matches Some(
            JsonView::Object(_),
        )),
{
    reveal_strlit("accept");
    reveal_strlit("decline");
    reveal_strlit("cancel");
    assert("accept"@.len() != "decline"@.len());
    assert("accept"@[0] != "cancel"@[0]);
    crate::explore_candidates::law_choice_rewrites_only_symbol(arguments, response@, name);
}

/// A task stays with its call: the tool, the arguments and the permission to ask never
/// change.
pub proof fn law_tasks_stay_with_their_call(
    before: QueryTask,
    event: TaskEvent,
    after: QueryTask,
    action: TaskAction,
)
    requires
        steps(before, event, after, action),
    ensures
        after.tool_name@ == before.tool_name@,
        after.tool_args@ == before.tool_args@,
        after.allow_candidate_input == before.allow_candidate_input,
{
}

/// A chosen symbol that still has to be analysed is followed under its own query, once that
/// is known to belong to an exploration; else its result completes the task.
pub proof fn law_chosen_symbols_are_followed(
    before: QueryTask,
    result: CallToolResult,
    next: RetryableQuery,
    tool: Option<String>,
    after: QueryTask,
    action: TaskAction,
)
    ensures
        before.phase is Selecting && steps(before, TaskEvent::ToolReturned(result), after, action)
            ==> if retry_of(result_body(result)) is Some {
            (action matches TaskAction::BindReplay { query_id } && query_id@ == retry_of(
                result_body(result),
            )->Some_0.query_id) && (after.phase matches TaskPhase::Binding(bound_to) && bound_to@
                == retry_of(result_body(result))->Some_0)
        } else {
            action == TaskAction::Finish(result)
        },
        before.phase == TaskPhase::Binding(next) && steps(
            before,
            TaskEvent::ReplayBound(tool),
            after,
            action,
        ) ==> if string_view(tool) == Some("explore"@) {
            (action matches TaskAction::Sleep { delay_ms } && delay_ms == poll_delay(
                next.retry_after_ms,
            )) && after.retry@ == next@ && after.phase is Waiting
        } else {
            action matches TaskAction::Exit(TaskExit::Error(_))
        },
{
}

/// An error of the tool, a deadline and a cancellation end the task with what happened.
pub proof fn law_interrupted_tasks_tell_why(
    before: QueryTask,
    error: AdapterError,
    after: QueryTask,
    action: TaskAction,
)
    requires
        !(before.phase is Finished),
    ensures
        (before.phase is Resuming || before.phase is Selecting || before.phase is Choosing)
            && steps(before, TaskEvent::ToolFailed(error), after, action) ==> (
        action matches TaskAction::Exit(TaskExit::Error(told)) && told@ == error@),
        steps(before, TaskEvent::DeadlinePassed, after, action) ==> (action matches
            TaskAction::Exit(TaskExit::Error(told)) && told.code is InternalError),
        steps(before, TaskEvent::Cancelled, after, action) ==> (action matches TaskAction::Exit(
            TaskExit::Cancelled,
        )),
{
}

/// A query that changed under a task is told with the query that was followed and the one
/// that answered; a query that cannot be followed is told as well.
pub proof fn law_lost_queries_are_told(expected: Seq<char>, actual: Seq<char>)
    ensures
        identity_error(expected, actual).data matches Some(data) && data.text_field("expected"@)
            == Some(expected) && data.text_field("actual"@) == Some(actual),
        binding_error(actual).data matches Some(data) && data.text_field("query_id"@) == Some(
            actual,
        ),
        identity_error(expected, actual).code is InternalError,
        binding_error(actual).code is InternalError,
{
    reveal_strlit("expected");
    reveal_strlit("actual");
    assert("expected"@.len() != "actual"@.len());
}

} // verus!
