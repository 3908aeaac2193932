//! From a tool request to the call that is run, and from its result to the answer.

use vstd::prelude::*;

use crate::errors::{refused, AdapterError};
use crate::explore_candidates::{
    candidate_choice, prepare_explore_candidate_response, Choice, ExploreCandidateDecision,
};
use crate::json::{Json, JsonObject, JsonView};
use crate::overlay::{
    delete_target, is_uuid, offers, overlay_delete_target, queue_full, redeemed, responses_view,
    standing, ConfirmationQueue, PendingView, MAX_PENDING_OVERLAY_DELETE_CONFIRMATIONS,
};
use crate::project_path::{path_prepared, path_verdict, prepare_project_path_call};
use crate::protocol::Tool;
use crate::protocol_version::{protocol_supports_sep_2322, supports_requested_input};
use crate::query_task::{query_task_supported_for_tool, retry_view, RetryableQuery};
use crate::responses::{PreparedAdapterToolCall, PreparedToolCall, ToolResponse};
use crate::text::{same_text, str_view};

verus! {

/// How many tool calls may run at once.
pub const MAX_CONCURRENT_TOOL_CALLS: usize = 4;

/// How long a client may keep the tool catalog, in milliseconds.
pub const TOOL_CATALOG_TTL_MS: u64 = 300_000;

/// The tool catalog, and how it may be cached.
pub struct ToolCatalog {
    pub tools: Vec<Tool>,
    pub ttl_ms: Option<u64>,
    pub public: bool,
}

/// The answer to a request for the tool catalog. The catalog is the same for
/// every client, so a client of a revision that knows caching may share it.
pub fn list_tools_result(tools: Vec<Tool>, protocol_version: Option<&str>) -> (catalog: ToolCatalog)
    ensures
        catalog.tools == tools,
        catalog.public == supports_requested_input(str_view(protocol_version)),
        catalog.ttl_ms == if supports_requested_input(str_view(protocol_version)) {
            Some(TOOL_CATALOG_TTL_MS)
        } else {
            None
        },
{
    if protocol_supports_sep_2322(protocol_version) {
        ToolCatalog { tools, ttl_ms: Some(TOOL_CATALOG_TTL_MS), public: true }
    } else {
        ToolCatalog { tools, ttl_ms: None, public: false }
    }
}

/// Whether a client can be asked to fill in forms during a call.
pub fn form_mrtr_supported(protocol_version: Option<&str>, form_elicitation: bool) -> (supported:
    bool)
    ensures
        supported == (supports_requested_input(str_view(protocol_version)) && form_elicitation),
{
    protocol_supports_sep_2322(protocol_version) && form_elicitation
}

/// Whether a client can follow tasks.
pub fn query_tasks_supported(protocol_version: Option<&str>, task_support: bool) -> (supported: bool)
    ensures
        supported == (supports_requested_input(str_view(protocol_version)) && task_support),
{
    protocol_supports_sep_2322(protocol_version) && task_support
}

/// What becomes of a call of the explore tool.
pub open spec fn explore_prepared(
    args: JsonView,
    responses: Option<Map<Seq<char>, JsonView>>,
    has_state: bool,
    form_supported: bool,
    prepared: Result<PreparedToolCall, AdapterError>,
) -> bool {
    if responses is None && !has_state {
        prepared matches Ok(p) && p.runs_with(args, form_supported)
    } else if !form_supported {
        prepared matches Err(e) && e@ == refused(
            "explore candidate selection requires MCP 2026-07-28 and form elicitation"@,
        )
    } else if has_state {
        prepared matches Err(e) && e@ == refused(
            "explore candidate selection does not use requestState"@,
        )
    } else {
        explore_answered(args, responses->Some_0, prepared)
    }
}

/// What becomes of the answers to a candidate form.
pub open spec fn explore_answered(
    args: JsonView,
    given: Map<Seq<char>, JsonView>,
    prepared: Result<PreparedToolCall, AdapterError>,
) -> bool {
    if given.dom().len() != 1 {
        prepared matches Err(e) && e@ == refused(
            "explore candidate selection expects exactly one input response"@,
        )
    } else if !given.contains_key("explore_symbol_selection"@) {
        prepared matches Err(e) && e@ == refused(
            "explore candidate selection response is missing"@,
        )
    } else {
        match candidate_choice(args, given["explore_symbol_selection"@]) {
            Choice::Accept(settled) => prepared matches Ok(p) && p.runs_with(settled, false),
            Choice::Decline => prepared matches Ok(p) && p.runs_with(args, false),
            Choice::Refuse(message) => prepared matches Err(e) && e@ == refused(message),
        }
    }
}

/// What becomes of a tool call that is not a confirmed delete.
pub open spec fn tool_call_prepared(
    tool_name: Seq<char>,
    args: JsonView,
    responses: Option<Map<Seq<char>, JsonView>>,
    has_state: bool,
    form_supported: bool,
    max_path_length: u32,
    prepared: Result<PreparedToolCall, AdapterError>,
) -> bool {
    if tool_name == "project"@ {
        path_prepared(
            path_verdict(args, responses, has_state, form_supported),
            args,
            max_path_length,
            prepared,
        )
    } else if tool_name == "explore"@ {
        explore_prepared(args, responses, has_state, form_supported, prepared)
    } else {
        prepared matches Ok(p) && p.runs_with(args, false)
    }
}

fn prepare_explore_call(
    args: Json,
    input_responses: Option<&JsonObject>,
    request_state: Option<&str>,
    form_mrtr_supported: bool,
) -> (prepared: Result<PreparedToolCall, AdapterError>)
    ensures
        explore_prepared(
            args@,
            responses_view(input_responses),
            request_state is Some,
            form_mrtr_supported,
            prepared,
        ),
{
    if input_responses.is_none() && request_state.is_none() {
        return Ok(
            PreparedToolCall {
                args,
                allow_candidate_mrtr: form_mrtr_supported,
                immediate_response: None,
            },
        );
    }
    if !form_mrtr_supported {
        return Err(
            AdapterError::invalid_params(
                "explore candidate selection requires MCP 2026-07-28 and form elicitation",
            ),
        );
    }
    if request_state.is_some() {
        return Err(
            AdapterError::invalid_params("explore candidate selection does not use requestState"),
        );
    }
    let responses = match input_responses {
        Some(responses) => responses,
        None => {
            return Err(
                AdapterError::invalid_params(
                    "explore candidate selection is missing inputResponses",
                ),
            );
        },
    };
    if responses.len() != 1 {
        return Err(
            AdapterError::invalid_params(
                "explore candidate selection expects exactly one input response",
            ),
        );
    }
    let response = match responses.get("explore_symbol_selection") {
        Some(response) => response,
        None => {
            return Err(
                AdapterError::invalid_params("explore candidate selection response is missing"),
            );
        },
    };
    let settled = match prepare_explore_candidate_response(&args, response) {
        Ok(ExploreCandidateDecision::Accept(settled)) => settled,
        Ok(ExploreCandidateDecision::Decline) => args,
        Err(error) => {
            return Err(error);
        },
    };
    Ok(PreparedToolCall { args: settled, allow_candidate_mrtr: false, immediate_response: None })
}

/// Prepares a tool call that is not a confirmed delete.
pub fn prepare_tool_call(
    tool_name: &str,
    args: Json,
    input_responses: Option<&JsonObject>,
    request_state: Option<&str>,
    form_mrtr_supported: bool,
    max_path_length: u32,
) -> (prepared: Result<PreparedToolCall, AdapterError>)
    requires
        max_path_length >= 1,
    ensures
        tool_call_prepared(
            tool_name@,
            args@,
            responses_view(input_responses),
            request_state is Some,
            form_mrtr_supported,
            max_path_length,
            prepared,
        ),
{
    if same_text(tool_name, "project") {
        return prepare_project_path_call(
            args,
            input_responses,
            request_state,
            form_mrtr_supported,
            max_path_length,
        );
    }
    if same_text(tool_name, "explore") {
        return prepare_explore_call(args, input_responses, request_state, form_mrtr_supported);
    }
    Ok(PreparedToolCall { args, allow_candidate_mrtr: false, immediate_response: None })
}

/// How a tool request is dealt with.
pub enum Route {
    /// It redeems the confirmation of a delete.
    Redeem,
    /// It is refused.
    Refuse(Seq<char>),
    /// It is a delete that is offered for confirmation.
    Offer,
    /// It is an ordinary call.
    Call,
}

/// How a tool request is dealt with.
pub open spec fn route(
    tool_name: Seq<char>,
    args: JsonView,
    has_responses: bool,
    has_state: bool,
    form_supported: bool,
    project_active: bool,
) -> Route {
    if has_state {
        Route::Redeem
    } else if delete_target(tool_name, args) is Some && has_responses {
        Route::Refuse("overlay delete confirmation requestState is missing"@)
    } else if delete_target(tool_name, args) is Some && form_supported && project_active {
        Route::Offer
    } else if has_responses && tool_name != "project"@ && tool_name != "explore"@ {
        Route::Refuse("this tool does not accept MCP inputResponses"@)
    } else {
        Route::Call
    }
}

/// What an offer of a delete comes to.
pub open spec fn offered<R>(
    before: Map<Seq<char>, PendingView<R>>,
    now: u64,
    tool_name: Seq<char>,
    args: JsonView,
    scope: Option<(R, String)>,
    after: Map<Seq<char>, PendingView<R>>,
    prepared: Result<PreparedAdapterToolCall<R>, AdapterError>,
) -> bool {
    let target = delete_target(tool_name, args)->Some_0;
    match scope {
        None => (prepared matches Err(e) && e@ == refused(
            "overlay delete confirmation requires an active project"@,
        )) && after == before,
        Some((execution_router, project_root)) => if standing(before, now).dom().len()
            >= MAX_PENDING_OVERLAY_DELETE_CONFIRMATIONS {
            (prepared matches Err(e) && e@ == queue_full()) && after == standing(before, now)
        } else {
            prepared matches Ok(p) && exists|handle: Seq<char>|
                is_uuid(handle) && !standing(before, now).contains_key(handle) && #[trigger] offers(
                    p,
                    args,
                    target,
                    project_root@,
                    handle,
                ) && after == standing(before, now).insert(
                    handle,
                    PendingView {
                        tool_name,
                        args,
                        execution_router,
                        project_root: project_root@,
                        target,
                        created_at: now,
                    },
                )
        },
    }
}

/// Whether a tool request was dealt with as its route says.
pub open spec fn routed<R>(
    before: Map<Seq<char>, PendingView<R>>,
    now: u64,
    tool_name: Seq<char>,
    args: JsonView,
    responses: Option<Map<Seq<char>, JsonView>>,
    state: Option<Seq<char>>,
    form_supported: bool,
    project_active: bool,
    scope: Option<(R, String)>,
    max_path_length: u32,
    after: Map<Seq<char>, PendingView<R>>,
    prepared: Result<PreparedAdapterToolCall<R>, AdapterError>,
) -> bool {
    match route(
        tool_name,
        args,
        responses is Some,
        state is Some,
        form_supported,
        project_active,
    ) {
        Route::Redeem => after == standing(before, now).remove(state->Some_0) && redeemed(
            standing(before, now),
            tool_name,
            args,
            responses,
            state->Some_0,
            prepared,
        ),
        Route::Refuse(message) => after == before && (prepared matches Err(e) && e@ == refused(
            message,
        )),
        Route::Offer => offered(before, now, tool_name, args, scope, after, prepared),
        Route::Call => after == before && match prepared {
            Ok(p) => p.execution_router is None && tool_call_prepared(
                tool_name,
                args,
                responses,
                false,
                form_supported,
                max_path_length,
                Ok(p.call),
            ),
            Err(e) => tool_call_prepared(
                tool_name,
                args,
                responses,
                false,
                form_supported,
                max_path_length,
                Err(e),
            ),
        },
    }
}

impl<R> ConfirmationQueue<R> {
    /// Prepares a tool request: redeems or offers a delete, or prepares an
    /// ordinary call. `scope` is the pinned scope of the active project.
    pub fn prepare_adapter_tool_call(
        &mut self,
        now: u64,
        tool_name: &str,
        args: Json,
        input_responses: Option<&JsonObject>,
        request_state: Option<&str>,
        form_mrtr_supported: bool,
        project_active: bool,
        scope: Option<(R, String)>,
        max_path_length: u32,
    ) -> (prepared: Result<PreparedAdapterToolCall<R>, AdapterError>)
        requires
            max_path_length >= 1,
        ensures
            routed(
                old(self)@,
                now,
                tool_name@,
                args@,
                responses_view(input_responses),
                str_view(request_state),
                form_mrtr_supported,
                project_active,
                scope,
                max_path_length,
                final(self)@,
                prepared,
            ),
    {
        match request_state {
            Some(state) => {
                return self.prepare_overlay_delete_retry(
                    now,
                    tool_name,
                    &args,
                    input_responses,
                    state,
                );
            },
            None => {},
        }
        let target = overlay_delete_target(tool_name, &args);
        if target.is_some() && input_responses.is_some() {
            return Err(
                AdapterError::invalid_params("overlay delete confirmation requestState is missing"),
            );
        }
        match target {
            Some(target) => {
                if form_mrtr_supported && project_active {
                    return self.overlay_delete_confirmation_response(
                        now,
                        tool_name,
                        &args,
                        target,
                        scope,
                    );
                }
            },
            None => {},
        }
        if input_responses.is_some() && !same_text(tool_name, "project") && !same_text(
            tool_name,
            "explore",
        ) {
            return Err(
                AdapterError::invalid_params("this tool does not accept MCP inputResponses"),
            );
        }
        match prepare_tool_call(
            tool_name,
            args,
            input_responses,
            None,
            form_mrtr_supported,
            max_path_length,
        ) {
            Ok(call) => Ok(PreparedAdapterToolCall { call, execution_router: None }),
            Err(error) => Err(error),
        }
    }
}

/// How a prepared call is run.
#[derive(Clone, Copy, Debug, PartialEq, Eq, Structural)]
pub struct CallPlan {
    /// Progress is reported to the client.
    pub reports_progress: bool,
    /// The result may be turned into a task.
    pub prepares_task: bool,
    /// The task may ask for a choice.
    pub allows_candidate_input: bool,
    /// The call keeps to the project that is active when it starts.
    pub pins_scope: bool,
}

/// Whether a tool reports progress.
pub open spec fn is_progress_tool(tool_name: Seq<char>) -> bool {
    tool_name == "project"@ || tool_name == "search"@ || tool_name == "symbol"@ || tool_name
        == "trace"@
}

/// How a call of a tool is run.
pub open spec fn call_plan(
    tool_name: Seq<char>,
    has_progress_token: bool,
    tasks_supported: bool,
    form_supported: bool,
) -> CallPlan {
    let prepares_task = tasks_supported && (tool_name != "explore"@ || form_supported);
    CallPlan {
        reports_progress: is_progress_tool(tool_name) && has_progress_token,
        prepares_task,
        allows_candidate_input: tool_name == "explore"@ && form_supported,
        pins_scope: prepares_task && tool_name != "project"@,
    }
}

/// How a call of a tool is run.
pub fn plan_call(
    tool_name: &str,
    has_progress_token: bool,
    query_tasks_supported: bool,
    form_mrtr_supported: bool,
) -> (plan: CallPlan)
    ensures
        plan == call_plan(
            tool_name@,
            has_progress_token,
            query_tasks_supported,
            form_mrtr_supported,
        ),
{
    let progress_tool = same_text(tool_name, "project") || same_text(tool_name, "search")
        || same_text(tool_name, "symbol") || same_text(tool_name, "trace");
    let prepares_task = query_task_supported_for_tool(
        tool_name,
        query_tasks_supported,
        form_mrtr_supported,
    );
    CallPlan {
        reports_progress: progress_tool && has_progress_token,
        prepares_task,
        allows_candidate_input: same_text(tool_name, "explore") && form_mrtr_supported,
        pins_scope: prepares_task && !same_text(tool_name, "project"),
    }
}

/// A query that is followed by a task.
pub struct PreparedQueryTask {
    pub retry: RetryableQuery,
    pub allow_candidate_input: bool,
}

/// Turns a retry into a task, provided that the query was stored by the same
/// tool. `replay_tool` is the tool that stored it, if it is stored.
pub fn prepare_query_task(
    tool_name: &str,
    allow_candidate_input: bool,
    retry: Option<RetryableQuery>,
    replay_tool: Option<&str>,
) -> (task: Option<PreparedQueryTask>)
    ensures
        match task {
            Some(t) => Some(t.retry@) == retry_view(retry) && str_view(replay_tool) == Some(
                tool_name@,
            ) && t.allow_candidate_input == (allow_candidate_input && tool_name@ == "explore"@),
            None => retry is None || str_view(replay_tool) != Some(tool_name@),
        },
{
    match (retry, replay_tool) {
        (Some(retry), Some(stored)) => if same_text(stored, tool_name) {
            Some(
                PreparedQueryTask {
                    retry,
                    allow_candidate_input: allow_candidate_input && same_text(
                        tool_name,
                        "explore",
                    ),
                },
            )
        } else {
            None
        },
        _ => None,
    }
}

/// A client of an earlier revision, or one that fills in no forms, is never asked
/// for input: its calls run, or are refused.
pub proof fn law_plain_clients_are_never_asked<R>(
    before: Map<Seq<char>, PendingView<R>>,
    now: u64,
    tool_name: Seq<char>,
    args: JsonView,
    responses: Option<Map<Seq<char>, JsonView>>,
    project_active: bool,
    scope: Option<(R, String)>,
    max_path_length: u32,
    after: Map<Seq<char>, PendingView<R>>,
    prepared: PreparedAdapterToolCall<R>,
)
    requires
        routed(
            before,
            now,
            tool_name,
            args,
            responses,
            None,
            false,
            project_active,
            scope,
            max_path_length,
            after,
            Ok(prepared),
        ),
    ensures
        prepared.call.immediate_response is None,
        prepared.execution_router is None,
        after == before,
{
}

/// A client that comes back with a state is not asked again, whether or not it fills in
/// forms: the delete that it was asked about runs, is declined, or is refused.
pub proof fn law_redeeming_clients_are_never_asked<R>(
    before: Map<Seq<char>, PendingView<R>>,
    now: u64,
    tool_name: Seq<char>,
    args: JsonView,
    responses: Option<Map<Seq<char>, JsonView>>,
    state: Seq<char>,
    form_supported: bool,
    project_active: bool,
    scope: Option<(R, String)>,
    max_path_length: u32,
    after: Map<Seq<char>, PendingView<R>>,
    prepared: PreparedAdapterToolCall<R>,
)
    requires
        routed(
            before,
            now,
            tool_name,
            args,
            responses,
            Some(state),
            form_supported,
            project_active,
            scope,
            max_path_length,
            after,
            Ok(prepared),
        ),
    ensures
        !(prepared.call.immediate_response matches Some(ToolResponse::InputRequired(_))),
        standing(before, now).contains_key(state),
        after == standing(before, now).remove(state),
{
}

/// Without forms the arguments of a call reach the tool unchanged.
pub proof fn law_plain_arguments_are_unchanged(
    tool_name: Seq<char>,
    args: JsonView,
    form_supported: bool,
    max_path_length: u32,
    prepared: PreparedToolCall,
)
    requires
        tool_call_prepared(
            tool_name,
            args,
            None,
            false,
            form_supported,
            max_path_length,
            Ok(prepared),
        ),
    ensures
        prepared.args@ == args,
{
}

/// A delete that needs a confirmation never runs on the request that asks for it.
pub proof fn law_unconfirmed_delete_does_not_run<R>(
    before: Map<Seq<char>, PendingView<R>>,
    now: u64,
    tool_name: Seq<char>,
    args: JsonView,
    scope: Option<(R, String)>,
    max_path_length: u32,
    after: Map<Seq<char>, PendingView<R>>,
    prepared: PreparedAdapterToolCall<R>,
)
    requires
        delete_target(tool_name, args) is Some,
        routed(
            before,
            now,
            tool_name,
            args,
            None,
            None,
            true,
            true,
            scope,
            max_path_length,
            after,
            Ok(prepared),
        ),
    ensures
        prepared.call.immediate_response is Some,
{
}

/// What a call may do is only what its client supports: progress is reported to those who
/// gave a token, candidates are offered to those who fill in forms, and a scope is pinned
/// only for a task.
pub proof fn law_call_plan_asks_no_more_than_is_supported(
    tool_name: Seq<char>,
    has_progress_token: bool,
    tasks_supported: bool,
    form_supported: bool,
)
    ensures
        ({
            let plan = call_plan(tool_name, has_progress_token, tasks_supported, form_supported);
            &&& plan.reports_progress ==> has_progress_token
            &&& plan.prepares_task ==> tasks_supported
            &&& plan.allows_candidate_input ==> form_supported && tool_name == "explore"@
            &&& plan.pins_scope ==> plan.prepares_task && tool_name != "project"@
            &&& tasks_supported && form_supported ==> plan.prepares_task
            &&& tool_name == "explore"@ && form_supported ==> plan.allows_candidate_input
            &&& tasks_supported && tool_name != "explore"@ ==> plan.prepares_task
            &&& plan.prepares_task && tool_name != "project"@ ==> plan.pins_scope
        }),
{
}

/// Only the tools that ask for input take answers: those of any other call are refused, and
/// nothing that is pending changes.
pub proof fn law_answers_that_were_not_asked_for_are_refused<R>(
    before: Map<Seq<char>, PendingView<R>>,
    now: u64,
    tool_name: Seq<char>,
    args: JsonView,
    given: Map<Seq<char>, JsonView>,
    form_supported: bool,
    project_active: bool,
    scope: Option<(R, String)>,
    max_path_length: u32,
    after: Map<Seq<char>, PendingView<R>>,
    prepared: Result<PreparedAdapterToolCall<R>, AdapterError>,
)
    requires
        tool_name != "project"@,
        tool_name != "explore"@,
        routed(
            before,
            now,
            tool_name,
            args,
            Some(given),
            None,
            form_supported,
            project_active,
            scope,
            max_path_length,
            after,
            prepared,
        ),
    ensures
        prepared is Err,
        after == before,
{
}

/// A call of a tool that asks for nothing runs as it is, in the scope that is active.
pub proof fn law_ordinary_calls_run<R>(
    before: Map<Seq<char>, PendingView<R>>,
    now: u64,
    tool_name: Seq<char>,
    args: JsonView,
    form_supported: bool,
    project_active: bool,
    scope: Option<(R, String)>,
    max_path_length: u32,
    after: Map<Seq<char>, PendingView<R>>,
    prepared: Result<PreparedAdapterToolCall<R>, AdapterError>,
)
    requires
        tool_name != "project"@,
        delete_target(tool_name, args) is None,
        routed(
            before,
            now,
            tool_name,
            args,
            None,
            None,
            form_supported,
            project_active,
            scope,
            max_path_length,
            after,
            prepared,
        ),
    ensures
        prepared matches Ok(p) && p.call.immediate_response is None && p.call.args@ == args
            && p.execution_router is None && (p.call.allow_candidate_mrtr <==> form_supported
            && tool_name == "explore"@),
        after == before,
{
}

/// A delete that is offered is kept with the arguments, the scope and the time of the
/// request, under a handle that nothing else is kept under; everything else that still
/// stands is kept as it was.
pub proof fn law_offered_delete_is_kept<R>(
    before: Map<Seq<char>, PendingView<R>>,
    now: u64,
    tool_name: Seq<char>,
    args: JsonView,
    scope: (R, String),
    after: Map<Seq<char>, PendingView<R>>,
    prepared: PreparedAdapterToolCall<R>,
)
    requires
        delete_target(tool_name, args) is Some,
        offered(before, now, tool_name, args, Some(scope), after, Ok(prepared)),
    ensures
        prepared.call.immediate_response matches Some(ToolResponse::InputRequired(required))
            && (required.request_state matches Some(handle) && after.contains_key(handle@)
            && !standing(before, now).contains_key(handle@) && after[handle@].tool_name
            == tool_name && after[handle@].args == args && after[handle@].execution_router
            == scope.0 && after[handle@].project_root == scope.1@ && after[handle@].created_at
            == now && Some(after[handle@].target) == delete_target(tool_name, args)
            && after.remove(handle@) == standing(before, now)),
{
    let target = delete_target(tool_name, args)->Some_0;
    let handle = choose|handle: Seq<char>|
        is_uuid(handle) && !standing(before, now).contains_key(handle) && #[trigger] offers(
            prepared,
            args,
            target,
            scope.1@,
            handle,
        ) && after == standing(before, now).insert(
            handle,
            PendingView {
                tool_name,
                args,
                execution_router: scope.0,
                project_root: scope.1@,
                target,
                created_at: now,
            },
        );
    assert(after.remove(handle) =~= standing(before, now));
}

/// An offer is answered with the call as it came, and nothing is run for it.
pub proof fn law_offers_keep_the_call<R>(
    prepared: PreparedAdapterToolCall<R>,
    args: JsonView,
    target: crate::overlay::TargetView,
    project_root: Seq<char>,
    handle: Seq<char>,
)
    requires
        offers(prepared, args, target, project_root, handle),
    ensures
        prepared.call.args@ == args,
        prepared.execution_router is None,
        !prepared.call.allow_candidate_mrtr,
        prepared.call.immediate_response matches Some(ToolResponse::InputRequired(required))
            && required.input_id@ == "confirm_overlay_delete"@ && required.form.message@
            == crate::overlay::confirm_message(target, project_root),
{
}

/// The tools that open projects, search, show symbols and trace report progress to those who
/// gave a token, and no other tool does.
pub proof fn law_progress_is_reported_by_long_calls(
    tool_name: Seq<char>,
    has_progress_token: bool,
    tasks_supported: bool,
    form_supported: bool,
)
    ensures
        call_plan(tool_name, has_progress_token, tasks_supported, form_supported).reports_progress
            <==> has_progress_token && seq!["project"@, "search"@, "symbol"@, "trace"@].contains(
            tool_name,
        ),
{
    let tools = seq!["project"@, "search"@, "symbol"@, "trace"@];
    assert(tools[0] == "project"@ && tools[1] == "search"@ && tools[2] == "symbol"@ && tools[3]
        == "trace"@);
}

/// An exploration with answers is only taken up where the client fills in forms, sends no
/// state, and answers one form, the one it was asked to fill in.
pub proof fn law_only_the_candidate_form_is_taken_up(
    args: JsonView,
    given: Map<Seq<char>, JsonView>,
    has_state: bool,
    form_supported: bool,
    prepared: PreparedToolCall,
)
    requires
        explore_prepared(args, Some(given), has_state, form_supported, Ok(prepared)),
    ensures
        form_supported,
        !has_state,
        given.dom().len() == 1,
        given.contains_key("explore_symbol_selection"@),
        !prepared.allow_candidate_mrtr,
        prepared.immediate_response is None,
        match candidate_choice(args, given["explore_symbol_selection"@]) {
            Choice::Accept(settled) => prepared.args@ == settled,
            Choice::Decline => prepared.args@ == args,
            Choice::Refuse(_) => false,
        },
{
}

/// A delete cannot be offered without a project; nothing changes then.
pub proof fn law_deletes_need_a_project<R>(
    before: Map<Seq<char>, PendingView<R>>,
    now: u64,
    tool_name: Seq<char>,
    args: JsonView,
    after: Map<Seq<char>, PendingView<R>>,
    prepared: Result<PreparedAdapterToolCall<R>, AdapterError>,
)
    requires
        offered(before, now, tool_name, args, None, after, prepared),
    ensures
        prepared matches Err(e) && e.code is InvalidParams,
        after == before,
{
}

/// A choice that is refused is refused with the reason.
pub proof fn law_refused_choices_tell_why(
    args: JsonView,
    given: Map<Seq<char>, JsonView>,
    prepared: Result<PreparedToolCall, AdapterError>,
)
    requires
        explore_answered(args, given, prepared),
        given.dom().len() == 1,
        given.contains_key("explore_symbol_selection"@),
    ensures
        candidate_choice(args, given["explore_symbol_selection"@]) matches Choice::Refuse(reason)
            ==> (prepared matches Err(e) && e.code is InvalidParams && e.message@ == reason),
        prepared is Err ==> candidate_choice(args, given["explore_symbol_selection"@]) is Refuse,
{
}

/// Where too many offers wait, no other is made, and the client is told so; what has expired
/// is forgotten all the same.
pub proof fn law_full_queues_offer_nothing<R>(
    before: Map<Seq<char>, PendingView<R>>,
    now: u64,
    tool_name: Seq<char>,
    args: JsonView,
    scope: (R, String),
    after: Map<Seq<char>, PendingView<R>>,
    prepared: Result<PreparedAdapterToolCall<R>, AdapterError>,
)
    requires
        standing(before, now).dom().len() >= MAX_PENDING_OVERLAY_DELETE_CONFIRMATIONS,
        offered(before, now, tool_name, args, Some(scope), after, prepared),
    ensures
        prepared matches Err(e) && e@ == queue_full(),
        after == standing(before, now),
{
}

} // verus!
