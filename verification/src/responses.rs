//! What a prepared tool call consists of, and what it may be answered with.

use vstd::prelude::*;

use crate::forms::{FieldView, FormRequest};
use crate::json::Json;
use crate::protocol::CallToolResult;

verus! {

/// A request for one form to be filled in.
pub struct InputRequired {
    pub input_id: String,
    pub form: FormRequest,
    pub request_state: Option<String>,
}

/// The answer to a tool call.
pub enum ToolResponse {
    Complete(CallToolResult),
    InputRequired(InputRequired),
}

impl ToolResponse {
    /// Whether the answer is a request for one form field, with the given state
    /// to be echoed.
    pub open spec fn requests(
        self,
        input_id: Seq<char>,
        message: Seq<char>,
        about: Seq<char>,
        name: Seq<char>,
        field: FieldView,
        state: Option<Seq<char>>,
    ) -> bool {
        match self {
            ToolResponse::InputRequired(required) => required.input_id@ == input_id
                && required.form.asks(message, about, name, field)
                && crate::text::string_view(required.request_state) == state,
            ToolResponse::Complete(_) => false,
        }
    }

    /// Whether the answer is a successful result of one block of the given text.
    pub open spec fn completes_with(self, text: Seq<char>) -> bool {
        match self {
            ToolResponse::Complete(result) => result.is_error == Some(false)
                && result.content@.len() == 1 && result.content@[0]@ == text,
            ToolResponse::InputRequired(_) => false,
        }
    }
}

/// A tool call whose arguments have been settled. Where there is an immediate
/// response the tool is not run.
pub struct PreparedToolCall {
    pub args: Json,
    pub allow_candidate_mrtr: bool,
    pub immediate_response: Option<ToolResponse>,
}

impl PreparedToolCall {
    /// Whether the tool is to be run with the given arguments.
    pub open spec fn runs_with(self, args: crate::json::JsonView, allow_candidate: bool) -> bool {
        self.args@ == args && self.allow_candidate_mrtr == allow_candidate
            && self.immediate_response is None
    }
}

/// A prepared tool call, and the project scope that it is pinned to, if any.
pub struct PreparedAdapterToolCall<R> {
    pub call: PreparedToolCall,
    pub execution_router: Option<R>,
}

/// A request for a form field is told by its own identifier, message and state, and asks for
/// that field alone.
pub proof fn law_requests_tell_what_they_ask_for(
    response: ToolResponse,
    input_id: Seq<char>,
    message: Seq<char>,
    about: Seq<char>,
    name: Seq<char>,
    field: FieldView,
    state: Option<Seq<char>>,
)
    requires
        response.requests(input_id, message, about, name, field, state),
    ensures
        response matches ToolResponse::InputRequired(required) && required.input_id@ == input_id
            && required.form.message@ == message && crate::text::string_view(
            required.request_state,
        ) == state && crate::forms::schema_fields(required.form.schema).dom() == Set::empty().insert(
            name,
        ) && crate::forms::schema_fields(required.form.schema)[name] == field
            && crate::forms::schema_description(required.form.schema) == Some(about),
{
    if let ToolResponse::InputRequired(required) = response {
        assert(crate::forms::schema_fields(required.form.schema).dom() =~= Set::empty().insert(
            name,
        ));
    }
}

/// A call that runs has its arguments and no answer; one that is answered with a text is a
/// success of that text alone.
pub proof fn law_calls_run_or_are_answered(
    call: PreparedToolCall,
    args: crate::json::JsonView,
    allow_candidate: bool,
    response: ToolResponse,
    text: Seq<char>,
)
    ensures
        call.runs_with(args, allow_candidate) <==> call.args@ == args && call.allow_candidate_mrtr
            == allow_candidate && call.immediate_response is None,
        response.completes_with(text) ==> (response matches ToolResponse::Complete(result)
            && !result.failed() && result.sole_text() == Some(text)),
{
}

} // verus!
