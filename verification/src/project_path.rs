//! Opening a project without a path: the client is asked for the path, and the
//! original call is then prepared with it.

use vstd::prelude::*;

use crate::errors::{refused, AdapterError};
use crate::forms::{line_schema, FieldView, FormRequest};
use crate::json::{Json, JsonObject, JsonView};
use crate::overlay::{field_is, responses_view};
use crate::responses::{InputRequired, PreparedToolCall, ToolResponse};
use crate::text::{same_text, str_view};

verus! {

/// Whether a call is an `open` that names no path. A path that is no string
/// counts as named.
pub open spec fn open_without_path(args: JsonView) -> bool {
    args.text_field("action"@) == Some("open"@) && match args.field("project_path"@) {
        None => true,
        Some(path) => path == JsonView::Str(Seq::empty()),
    }
}

/// Whether a call is an `open` that names no path.
pub fn project_open_missing_path(args: &Json) -> (missing: bool)
    ensures
        missing == open_without_path(args@),
{
    field_is(args, "action", "open") && match args.get("project_path") {
        None => true,
        Some(path) => match path {
            Json::Str(s) => {
                proof {
                    if s@.len() == 0 {
                        assert(s@ =~= Seq::empty());
                    }
                }
                s.as_str().is_empty()
            },
            _ => false,
        },
    }
}

/// What the project path form asks for.
pub open spec fn path_field(max_length: u32) -> FieldView {
    FieldView::Line {
        title: "Project directory"@,
        description: "Absolute path to the project directory Atlas should open"@,
        min_length: 1,
        max_length,
    }
}

/// Whether a response is the request for a project path.
pub open spec fn asks_for_path(response: ToolResponse, max_path_length: u32) -> bool {
    response.requests(
        "project_path_input"@,
        "Choose the project directory Atlas should open"@,
        "Provide the project directory required by project(action=\"open\")"@,
        "project_path"@,
        path_field(max_path_length),
        None,
    )
}

/// The request for a project path of at most `max_path_length` characters.
pub fn project_path_input_required(max_path_length: u32) -> (response: Result<
    ToolResponse,
    AdapterError,
>)
    requires
        max_path_length >= 1,
    ensures
        response matches Ok(r) && asks_for_path(r, max_path_length),
{
    let schema = match line_schema(
        "Provide the project directory required by project(action=\"open\")",
        "project_path",
        "Project directory",
        "Absolute path to the project directory Atlas should open",
        1,
        max_path_length,
    ) {
        Ok(schema) => schema,
        Err(detail) => {
            return Err(
                AdapterError::with_detail("Failed to build project path elicitation schema", detail),
            );
        },
    };
    Ok(
        ToolResponse::InputRequired(
            InputRequired {
                input_id: "project_path_input".to_owned(),
                form: FormRequest {
                    message: "Choose the project directory Atlas should open".to_owned(),
                    schema,
                },
                request_state: None,
            },
        ),
    )
}

/// What becomes of a call of the project tool.
pub enum PathVerdict {
    /// The tool runs with these arguments.
    Run(JsonView),
    /// The client is asked for the path.
    Ask,
    /// The call is refused.
    Refuse(Seq<char>),
}

/// What becomes of a call of the project tool.
pub open spec fn path_verdict(
    args: JsonView,
    responses: Option<Map<Seq<char>, JsonView>>,
    has_state: bool,
    form_supported: bool,
) -> PathVerdict {
    match responses {
        None => if !open_without_path(args) {
            PathVerdict::Run(args)
        } else if has_state {
            PathVerdict::Refuse("project path elicitation does not use requestState"@)
        } else if !form_supported {
            PathVerdict::Run(args)
        } else {
            PathVerdict::Ask
        },
        Some(given) => if !form_supported {
            PathVerdict::Refuse(
                "project path elicitation requires MCP 2026-07-28 and form elicitation"@,
            )
        } else if has_state {
            PathVerdict::Refuse("project path elicitation does not use requestState"@)
        } else if given.dom().len() != 1 {
            PathVerdict::Refuse("project path elicitation expects exactly one input response"@)
        } else if !given.contains_key("project_path_input"@) {
            PathVerdict::Refuse("project path elicitation response is missing"@)
        } else {
            path_answer(args, given["project_path_input"@])
        },
    }
}

/// What becomes of the client's answer to the project path form.
pub open spec fn path_answer(args: JsonView, response: JsonView) -> PathVerdict {
    match response.text_field("action"@) {
        None => PathVerdict::Refuse("project path elicitation action is missing"@),
        Some(action) => match args {
            JsonView::Object(arguments) => if args.text_field("action"@) != Some("open"@) {
                PathVerdict::Refuse("project path elicitation retry must preserve action=open"@)
            } else if action == "accept"@ {
                match accepted_path(response) {
                    Some(path) => PathVerdict::Run(
                        JsonView::Object(arguments.insert("project_path"@, JsonView::Str(path))),
                    ),
                    None => PathVerdict::Refuse(
                        "accepted project path elicitation requires a non-empty string"@,
                    ),
                }
            } else if action == "decline"@ || action == "cancel"@ {
                PathVerdict::Run(JsonView::Object(arguments.remove("project_path"@)))
            } else {
                PathVerdict::Refuse("unknown project path elicitation action"@)
            },
            _ => PathVerdict::Refuse(
                "project path elicitation retry must preserve the original arguments"@,
            ),
        },
    }
}

/// The path in an accepted form.
pub open spec fn accepted_path(response: JsonView) -> Option<Seq<char>> {
    match response.field("content"@) {
        Some(content) => crate::overlay::filled_field(content, "project_path"@),
        None => None,
    }
}

/// Whether a prepared call is what the verdict says.
pub open spec fn path_prepared(
    verdict: PathVerdict,
    args: JsonView,
    max_path_length: u32,
    prepared: Result<PreparedToolCall, AdapterError>,
) -> bool {
    match verdict {
        PathVerdict::Run(settled) => prepared matches Ok(p) && p.runs_with(settled, false),
        PathVerdict::Ask => prepared matches Ok(p) && p.args@ == args && !p.allow_candidate_mrtr
            && (p.immediate_response matches Some(r) && asks_for_path(r, max_path_length)),
        PathVerdict::Refuse(message) => prepared matches Err(e) && e@ == refused(message),
    }
}

fn run_with(args: Json) -> (call: PreparedToolCall)
    ensures
        call.runs_with(args@, false),
{
    PreparedToolCall { args, allow_candidate_mrtr: false, immediate_response: None }
}

fn read_accepted_path(response: &Json) -> (path: Option<&str>)
    ensures
        str_view(path) == accepted_path(response@),
{
    match response.get("content") {
        Some(content) => match content.get_str("project_path") {
            Some(path) => if path.is_empty() {
                None
            } else {
                Some(path)
            },
            None => None,
        },
        None => None,
    }
}

/// Prepares a call of the project tool: a missing path is asked for, and an
/// answered form is merged into the original arguments.
pub fn prepare_project_path_call(
    args: Json,
    input_responses: Option<&JsonObject>,
    request_state: Option<&str>,
    form_mrtr_supported: bool,
    max_path_length: u32,
) -> (prepared: Result<PreparedToolCall, AdapterError>)
    requires
        max_path_length >= 1,
    ensures
        path_prepared(
            path_verdict(
                args@,
                responses_view(input_responses),
                request_state is Some,
                form_mrtr_supported,
            ),
            args@,
            max_path_length,
            prepared,
        ),
{
    let responses = match input_responses {
        None => {
            if !project_open_missing_path(&args) {
                return Ok(run_with(args));
            }
            if request_state.is_some() {
                return Err(
                    AdapterError::invalid_params(
                        "project path elicitation does not use requestState",
                    ),
                );
            }
            if !form_mrtr_supported {
                return Ok(run_with(args));
            }
            return match project_path_input_required(max_path_length) {
                Ok(response) => Ok(
                    PreparedToolCall {
                        args,
                        allow_candidate_mrtr: false,
                        immediate_response: Some(response),
                    },
                ),
                Err(error) => Err(error),
            };
        },
        Some(responses) => responses,
    };
    if !form_mrtr_supported {
        return Err(
            AdapterError::invalid_params(
                "project path elicitation requires MCP 2026-07-28 and form elicitation",
            ),
        );
    }
    if request_state.is_some() {
        return Err(
            AdapterError::invalid_params("project path elicitation does not use requestState"),
        );
    }
    if responses.len() != 1 {
        return Err(
            AdapterError::invalid_params(
                "project path elicitation expects exactly one input response",
            ),
        );
    }
    let response = match responses.get("project_path_input") {
        Some(response) => response,
        None => {
            return Err(
                AdapterError::invalid_params("project path elicitation response is missing"),
            );
        },
    };
    let action = match response.get_str("action") {
        Some(action) => action,
        None => {
            return Err(AdapterError::invalid_params("project path elicitation action is missing"));
        },
    };
    let opens = field_is(&args, "action", "open");
    let mut arguments = match args {
        Json::Object(arguments) => arguments,
        _ => {
            return Err(
                AdapterError::invalid_params(
                    "project path elicitation retry must preserve the original arguments",
                ),
            );
        },
    };
    if !opens {
        return Err(
            AdapterError::invalid_params(
                "project path elicitation retry must preserve action=open",
            ),
        );
    }
    if same_text(action, "accept") {
        match read_accepted_path(response) {
            Some(path) => {
                arguments.put("project_path", Json::text(path));
            },
            None => {
                return Err(
                    AdapterError::invalid_params(
                        "accepted project path elicitation requires a non-empty string",
                    ),
                );
            },
        }
    } else if same_text(action, "decline") || same_text(action, "cancel") {
        arguments.remove("project_path");
    } else {
        return Err(AdapterError::invalid_params("unknown project path elicitation action"));
    }
    Ok(run_with(Json::Object(arguments)))
}

/// An answered path form changes no argument but the path.
pub proof fn law_path_answer_keeps_other_arguments(
    arguments: Map<Seq<char>, JsonView>,
    response: JsonView,
    name: Seq<char>,
)
    requires
        name != "project_path"@,
    ensures
        path_answer(JsonView::Object(arguments), response) matches PathVerdict::Run(settled)
            ==> settled.field(name) == JsonView::Object(arguments).field(name),
{
}

/// A client that declines the path form is not asked again about the same call.
pub proof fn law_declined_path_is_not_asked_again(
    args: JsonView,
    responses: Map<Seq<char>, JsonView>,
    has_state: bool,
    form_supported: bool,
)
    ensures
        !(path_verdict(args, Some(responses), has_state, form_supported) is Ask),
{
}

/// The path is asked for exactly where a project is to be opened, no path is named, nothing
/// has been answered yet, and the client fills in forms.
pub proof fn law_path_is_asked_for_where_it_is_missing(
    args: JsonView,
    responses: Option<Map<Seq<char>, JsonView>>,
    has_state: bool,
    form_supported: bool,
)
    ensures
        path_verdict(args, responses, has_state, form_supported) is Ask <==> responses is None
            && !has_state && form_supported && args.text_field("action"@) == Some("open"@) && (
        args.field("project_path"@) is None || args.text_field("project_path"@) == Some(
            Seq::<char>::empty(),
        )),
{
}

/// An accepted form opens the project at the path that it gives; a declined one leaves the
/// call without a path.
pub proof fn law_path_answer_settles_the_path(
    arguments: Map<Seq<char>, JsonView>,
    response: JsonView,
    content: JsonView,
    path: Seq<char>,
)
    requires
        JsonView::Object(arguments).text_field("action"@) == Some("open"@),
    ensures
        response.text_field("action"@) == Some("accept"@) && response.field("content"@) == Some(
            content,
        ) && content.text_field("project_path"@) == Some(path) && path.len() > 0 ==> (path_answer(
            JsonView::Object(arguments),
            response,
        ) matches PathVerdict::Run(settled) && settled.text_field("project_path"@) == Some(path)),
        response.text_field("action"@) == Some("decline"@) || response.text_field("action"@)
            == Some("cancel"@) ==> (path_answer(JsonView::Object(arguments), response) matches
            PathVerdict::Run(settled) && settled.field("project_path"@) is None),
{
    reveal_strlit("accept");
    reveal_strlit("decline");
    reveal_strlit("cancel");
    assert("accept"@.len() != "decline"@.len());
    assert("accept"@[0] != "cancel"@[0]);
}

/// No state is taken with a path: a call with one is refused wherever the path is missing or
/// answered; a client that fills in no forms runs the call as it is, or is refused where it
/// sent answers.
pub proof fn law_paths_carry_no_state(
    args: JsonView,
    given: Map<Seq<char>, JsonView>,
    form_supported: bool,
)
    ensures
        path_verdict(args, Some(given), true, form_supported) is Refuse,
        path_verdict(args, Some(given), false, false) is Refuse,
        path_verdict(args, None, false, false) == PathVerdict::Run(args),
        open_without_path(args) ==> path_verdict(args, None, true, form_supported) is Refuse,
        !open_without_path(args) ==> path_verdict(args, None, true, form_supported)
            == PathVerdict::Run(args),
        given.dom().len() != 1 ==> path_verdict(args, Some(given), false, true) is Refuse,
{
}

/// A call of the project tool that is refused is refused with the reason.
pub proof fn law_refused_paths_tell_why(
    verdict: PathVerdict,
    args: JsonView,
    max_path_length: u32,
    prepared: Result<PreparedToolCall, AdapterError>,
)
    requires
        path_prepared(verdict, args, max_path_length, prepared),
    ensures
        prepared is Err <==> verdict is Refuse,
        verdict matches PathVerdict::Refuse(reason) ==> (prepared matches Err(e) && e.code
            is InvalidParams && e.message@ == reason),
        verdict matches PathVerdict::Run(settled) ==> (prepared matches Ok(call) && call.args@
            == settled && call.immediate_response is None),
        verdict is Ask ==> (prepared matches Ok(call) && call.args@ == args && (
        call.immediate_response matches Some(ToolResponse::InputRequired(_)))),
{
}

} // verus!
