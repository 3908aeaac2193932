//! Choosing among several definitions of a symbol: an ambiguous exploration is
//! answered with a form that lists the candidates, and the client's choice is put
//! into the arguments of the original call.

use vstd::prelude::*;
use vstd::string::*;

use crate::errors::{refused, AdapterError};
use crate::forms::{choice_schema, FieldView, FormRequest};
use crate::json::{items_view, json_view, Json, JsonView};
use crate::json_text::{exact, json_parsed, json_text, json_to_string, parse_json};
use crate::protocol::CallToolResult;
use crate::responses::{InputRequired, ToolResponse};
use crate::text::{decimal, push_decimal, same_text, strings_view};

verus! {

/// What a client chose.
pub enum ExploreCandidateDecision {
    Accept(Json),
    Decline,
}

/// What becomes of the client's choice.
pub enum Choice {
    /// The call runs with these arguments.
    Accept(JsonView),
    /// The call runs with its original arguments.
    Decline,
    /// The choice is refused.
    Refuse(Seq<char>),
}

/// What becomes of the client's choice.
pub open spec fn candidate_choice(args: JsonView, response: JsonView) -> Choice {
    match response.text_field("action"@) {
        None => Choice::Refuse("explore candidate selection action is missing"@),
        Some(action) => if action == "accept"@ {
            match response.field("content"@) {
                Some(content) => match content.text_field("selection"@) {
                    Some(selection) => selected_choice(args, json_parsed(selection)),
                    None => no_selection(),
                },
                None => no_selection(),
            }
        } else if action == "decline"@ || action == "cancel"@ {
            Choice::Decline
        } else {
            Choice::Refuse("unknown explore candidate selection action"@)
        },
    }
}

/// The refusal of an accepted form without a value.
pub open spec fn no_selection() -> Choice {
    Choice::Refuse("accepted explore candidate selection is missing its value"@)
}

/// What becomes of a selection that was read as `selected`.
pub open spec fn selected_choice(args: JsonView, selected: Option<JsonView>) -> Choice {
    match selected {
        Some(JsonView::Object(symbol)) => match args {
            JsonView::Object(arguments) => Choice::Accept(
                JsonView::Object(arguments.insert("symbol"@, JsonView::Object(symbol))),
            ),
            _ => Choice::Refuse(
                "explore candidate selection retry must preserve the original arguments"@,
            ),
        },
        _ => Choice::Refuse("explore candidate selection must be a JSON object"@),
    }
}

/// Whether a decision is what becomes of a choice.
pub open spec fn decides(
    choice: Choice,
    decision: Result<ExploreCandidateDecision, AdapterError>,
) -> bool {
    match choice {
        Choice::Accept(args) => decision matches Ok(ExploreCandidateDecision::Accept(a)) && a@
            == args,
        Choice::Decline => decision matches Ok(ExploreCandidateDecision::Decline),
        Choice::Refuse(message) => decision matches Err(e) && e@ == refused(message),
    }
}

/// Puts the selected symbol into the arguments; `selected` is what was read from
/// the selection.
pub fn select_candidate(args: &Json, selected: Option<Json>) -> (decision: Result<
    ExploreCandidateDecision,
    AdapterError,
>)
    ensures
        decides(selected_choice(args@, json_view(selected)), decision),
{
    let symbol = match selected {
        Some(symbol) => symbol,
        None => {
            return Err(
                AdapterError::invalid_params("explore candidate selection must be a JSON object"),
            );
        },
    };
    if !symbol.is_object() {
        return Err(
            AdapterError::invalid_params("explore candidate selection must be a JSON object"),
        );
    }
    let mut arguments = match args {
        Json::Object(arguments) => arguments.clone(),
        _ => {
            return Err(
                AdapterError::invalid_params(
                    "explore candidate selection retry must preserve the original arguments",
                ),
            );
        },
    };
    arguments.put("symbol", symbol);
    Ok(ExploreCandidateDecision::Accept(Json::Object(arguments)))
}

/// Settles the client's answer to the candidate form.
pub fn prepare_explore_candidate_response(args: &Json, response: &Json) -> (decision: Result<
    ExploreCandidateDecision,
    AdapterError,
>)
    ensures
        decides(candidate_choice(args@, response@), decision),
{
    let action = match response.get_str("action") {
        Some(action) => action,
        None => {
            return Err(
                AdapterError::invalid_params("explore candidate selection action is missing"),
            );
        },
    };
    if same_text(action, "accept") {
        let selection = match response.get("content") {
            Some(content) => content.get_str("selection"),
            None => None,
        };
        match selection {
            Some(selection) => select_candidate(args, parse_json(selection)),
            None => Err(
                AdapterError::invalid_params(
                    "accepted explore candidate selection is missing its value",
                ),
            ),
        }
    } else if same_text(action, "decline") || same_text(action, "cancel") {
        Ok(ExploreCandidateDecision::Decline)
    } else {
        Err(AdapterError::invalid_params("unknown explore candidate selection action"))
    }
}

/// The selector of a candidate.
pub open spec fn candidate_ref(candidate: JsonView) -> Option<JsonView> {
    match candidate.field("symbol_ref"@) {
        Some(symbol_ref) => if symbol_ref is Object {
            Some(symbol_ref)
        } else {
            None
        },
        None => None,
    }
}

/// The name of a candidate: its own, or that of its selector.
pub open spec fn candidate_name(candidate: JsonView, symbol_ref: JsonView) -> Option<Seq<char>> {
    match candidate.text_field("qualified_name"@) {
        Some(name) => Some(name),
        None => symbol_ref.text_field("qualified_name"@),
    }
}

/// The title under which a candidate is listed.
pub open spec fn candidate_title(candidate: JsonView, symbol_ref: JsonView) -> Option<Seq<char>> {
    match (
        candidate_name(candidate, symbol_ref),
        candidate.text_field("file_path"@),
        candidate.unsigned_field("line"@),
    ) {
        (Some(name), Some(file), Some(line)) => Some(
            name + " — "@ + file + ":"@ + decimal(line as nat),
        ),
        _ => None,
    }
}

/// Whether a candidate can be listed.
pub open spec fn can_be_listed(candidate: JsonView) -> bool {
    candidate_ref(candidate) matches Some(symbol_ref) && candidate_title(candidate, symbol_ref)
        is Some
}

/// The value under which a candidate is listed.
pub open spec fn listed_value(candidate: JsonView) -> Seq<char> {
    json_text(candidate_ref(candidate)->Some_0)
}

/// The title under which a candidate is listed.
pub open spec fn listed_title(candidate: JsonView) -> Seq<char> {
    candidate_title(candidate, candidate_ref(candidate)->Some_0)->Some_0
}

/// The candidates to choose from, where there are at least two and all can be listed.
pub open spec fn choosable(body: JsonView) -> Option<Seq<JsonView>> {
    if body.bool_field("ambiguous"@) != Some(true) {
        None
    } else {
        match body.field("candidates"@) {
            Some(JsonView::Array(candidates)) => if candidates.len() >= 2 && forall|i: int|
                0 <= i < candidates.len() ==> can_be_listed(#[trigger] candidates[i]) {
                Some(candidates)
            } else {
                None
            },
            _ => None,
        }
    }
}

/// What the candidate form asks for.
pub open spec fn candidates_field(candidates: Seq<JsonView>) -> FieldView {
    FieldView::Choice {
        values: Seq::new(candidates.len(), |i: int| listed_value(candidates[i])),
        titles: Seq::new(candidates.len(), |i: int| listed_title(candidates[i])),
    }
}

/// Whether a form asks to choose among the candidates of a body, and its values
/// can be read back as the candidates' selectors.
pub open spec fn asks_to_choose(form: Option<FormRequest>, body: Option<JsonView>) -> bool {
    match body {
        Some(b) => match choosable(b) {
            Some(candidates) => form matches Some(f) && f.asks(
                "Choose the symbol definition Atlas should explore"@,
                "Choose the exact symbol definition to explore"@,
                "selection"@,
                candidates_field(candidates),
            ) && forall|i: int|
                0 <= i < candidates.len() && exact(
                    candidate_ref(#[trigger] candidates[i])->Some_0,
                ) ==> json_parsed(listed_value(candidates[i])) == candidate_ref(candidates[i]),
            None => form is None,
        },
        None => form is None,
    }
}

struct Listed {
    value: String,
    title: String,
}

fn list_candidate(candidate: &Json) -> (listed: Option<Listed>)
    ensures
        match listed {
            Some(l) => can_be_listed(candidate@) && l.value@ == listed_value(candidate@)
                && l.title@ == listed_title(candidate@) && (exact(
                candidate_ref(candidate@)->Some_0,
            ) ==> json_parsed(l.value@) == candidate_ref(candidate@)),
            None => !can_be_listed(candidate@),
        },
{
    let symbol_ref = match candidate.get("symbol_ref") {
        Some(symbol_ref) => symbol_ref,
        None => {
            return None;
        },
    };
    if !symbol_ref.is_object() {
        return None;
    }
    let value = json_to_string(symbol_ref);
    let name = match candidate.get_str("qualified_name") {
        Some(name) => name,
        None => match symbol_ref.get_str("qualified_name") {
            Some(name) => name,
            None => {
                return None;
            },
        },
    };
    let file = match candidate.get_str("file_path") {
        Some(file) => file,
        None => {
            return None;
        },
    };
    let line: u64 = match candidate.get_u64("line") {
        Some(line) => line,
        None => {
            return None;
        },
    };
    let mut title = name.to_owned();
    title.append(" — ");
    title.append(file);
    title.append(":");
    push_decimal(&mut title, line);
    Some(Listed { value, title })
}

/// The form that lists the candidates of a result that was read as `read`.
pub fn candidate_form(read: Option<Json>) -> (form: Option<FormRequest>)
    ensures
        asks_to_choose(form, json_view(read)),
{
    let body = match read {
        Some(body) => body,
        None => {
            return None;
        },
    };
    match body.get_bool("ambiguous") {
        Some(true) => {},
        _ => {
            return None;
        },
    }
    let candidates = match body.get("candidates") {
        Some(candidates) => match candidates.as_array() {
            Some(candidates) => candidates,
            None => {
                return None;
            },
        },
        None => {
            return None;
        },
    };
    if candidates.len() < 2 {
        return None;
    }
    let ghost all = items_view(candidates@);
    let mut values: Vec<String> = Vec::new();
    let mut titles: Vec<String> = Vec::new();
    let mut i: usize = 0;
    while i < candidates.len()
        invariant
            i <= candidates@.len(),
            all == items_view(candidates@),
            json_view(read) == Some(body@),
            body@.bool_field("ambiguous"@) == Some(true),
            body@.field("candidates"@) == Some(JsonView::Array(all)),
            values@.len() == i,
            titles@.len() == i,
            forall|j: int|
                0 <= j < i ==> can_be_listed(#[trigger] all[j]) && values@[j]@ == listed_value(
                    all[j],
                ) && titles@[j]@ == listed_title(all[j]) && (exact(candidate_ref(all[j])->Some_0)
                    ==> json_parsed(values@[j]@) == candidate_ref(all[j])),
        decreases candidates@.len() - i,
    {
        match list_candidate(&candidates[i]) {
            Some(listed) => {
                proof {
                    assert(all[i as int] == candidates@[i as int]@);
                }
                values.push(listed.value);
                titles.push(listed.title);
            },
            None => {
                proof {
                    assert(!can_be_listed(all[i as int]));
                }
                return None;
            },
        }
        i = i + 1;
    }
    proof {
        assert(strings_view(values@) =~= Seq::new(all.len(), |i: int| listed_value(all[i])));
        assert(strings_view(titles@) =~= Seq::new(all.len(), |i: int| listed_title(all[i])));
    }
    match choice_schema(
        "Choose the exact symbol definition to explore",
        "selection",
        values,
        titles,
    ) {
        Ok(schema) => Some(
            FormRequest {
                message: "Choose the symbol definition Atlas should explore".to_owned(),
                schema,
            },
        ),
        Err(_) => None,
    }
}

/// What the text of a successful result of one block was read as.
pub open spec fn result_body(result: CallToolResult) -> Option<JsonView> {
    match result.sole_text() {
        Some(text) => json_parsed(text),
        None => None,
    }
}

/// What the text of a successful result of one block denotes.
pub fn read_result_body(result: &CallToolResult) -> (body: Option<Json>)
    ensures
        json_view(body) == result_body(*result),
{
    match result.as_sole_text() {
        Some(text) => parse_json(text),
        None => None,
    }
}

/// The form that lists the candidates of an ambiguous exploration.
pub fn explore_candidate_input_request(result: &CallToolResult) -> (form: Option<FormRequest>)
    ensures
        asks_to_choose(form, result_body(*result)),
{
    candidate_form(read_result_body(result))
}

/// The request for a choice among the candidates of an ambiguous exploration.
pub fn explore_candidate_input_required(result: &CallToolResult) -> (required: Option<
    InputRequired,
>)
    ensures
        match required {
            Some(r) => r.input_id@ == "explore_symbol_selection"@ && r.request_state is None
                && asks_to_choose(Some(r.form), result_body(*result)),
            None => asks_to_choose(None, result_body(*result)),
        },
{
    match explore_candidate_input_request(result) {
        Some(form) => Some(
            InputRequired {
                input_id: "explore_symbol_selection".to_owned(),
                form,
                request_state: None,
            },
        ),
        None => None,
    }
}

/// Whether a result of a tool is answered with a candidate form.
pub open spec fn answered_with_form(
    tool_name: Seq<char>,
    result: CallToolResult,
    allow_candidate: bool,
) -> bool {
    tool_name == "explore"@ && allow_candidate && (result_body(result) matches Some(body)
        && choosable(body) is Some)
}

/// The answer to a tool call: an ambiguous exploration is answered with a
/// candidate form where that is allowed, everything else with the result.
pub fn to_response(tool_name: &str, result: CallToolResult, allow_candidate_mrtr: bool) -> (response:
    ToolResponse)
    ensures
        if answered_with_form(tool_name@, result, allow_candidate_mrtr) {
            response matches ToolResponse::InputRequired(r) && r.input_id@
                == "explore_symbol_selection"@ && r.request_state is None && asks_to_choose(
                Some(r.form),
                result_body(result),
            )
        } else {
            response == ToolResponse::Complete(result)
        },
{
    if same_text(tool_name, "explore") && allow_candidate_mrtr {
        match explore_candidate_input_required(&result) {
            Some(required) => {
                return ToolResponse::InputRequired(required);
            },
            None => {},
        }
    }
    ToolResponse::Complete(result)
}

/// An accepted choice rewrites the symbol and no other argument.
pub proof fn law_choice_rewrites_only_symbol(
    arguments: Map<Seq<char>, JsonView>,
    response: JsonView,
    name: Seq<char>,
)
    requires
        name != "symbol"@,
    ensures
        candidate_choice(JsonView::Object(arguments), response) matches Choice::Accept(settled)
            ==> settled.field(name) == JsonView::Object(arguments).field(name),
{
}

/// Accepting a value that the form lists puts the selector of that candidate into
/// the arguments, whenever the selector is what its text denotes.
pub proof fn law_listed_choice_selects_the_candidate(
    form: FormRequest,
    body: JsonView,
    candidates: Seq<JsonView>,
    i: int,
    arguments: Map<Seq<char>, JsonView>,
    response: JsonView,
    content: JsonView,
)
    requires
        asks_to_choose(Some(form), Some(body)),
        choosable(body) == Some(candidates),
        0 <= i < candidates.len(),
        json_parsed(listed_value(candidates[i])) == candidate_ref(candidates[i]),
        response.text_field("action"@) == Some("accept"@),
        response.field("content"@) == Some(content),
        content.text_field("selection"@) == Some(listed_value(candidates[i])),
    ensures
        candidate_choice(JsonView::Object(arguments), response) == Choice::Accept(
            JsonView::Object(
                arguments.insert("symbol"@, candidate_ref(candidates[i])->Some_0),
            ),
        ),
{
    assert(can_be_listed(candidates[i]));
}

/// A selector that the form lists is what its text denotes, unless it holds numbers
/// other than integers or is nested deeper than can be read.
pub proof fn law_listed_selectors_are_read_back(
    form: FormRequest,
    body: JsonView,
    candidates: Seq<JsonView>,
    i: int,
)
    requires
        asks_to_choose(Some(form), Some(body)),
        choosable(body) == Some(candidates),
        0 <= i < candidates.len(),
        exact(candidate_ref(candidates[i])->Some_0),
    ensures
        json_parsed(listed_value(candidates[i])) == candidate_ref(candidates[i]),
{
    assert(can_be_listed(candidates[i]));
}

/// Declining leaves the call as it was, and is never taken for a choice.
pub proof fn law_declined_choice_keeps_the_call(args: JsonView, response: JsonView)
    requires
        response.text_field("action"@) == Some("decline"@) || response.text_field("action"@)
            == Some("cancel"@),
    ensures
        candidate_choice(args, response) is Decline,
{
    reveal_strlit("accept");
    reveal_strlit("decline");
    reveal_strlit("cancel");
    if response.text_field("action"@) == Some("accept"@) {
        assert("accept"@[0] == 'a');
        assert("decline"@[0] == 'd');
        assert("cancel"@[0] == 'c');
    }
}

/// Whether a candidate is listed under the text of its own selector, and a title that starts
/// with its name and ends with its file and line.
pub open spec fn lists_candidate(candidate: JsonView, value: Seq<char>, title: Seq<char>) -> bool {
    &&& candidate.field("symbol_ref"@) matches Some(selector)
    &&& value == json_text(selector)
    &&& candidate.text_field("qualified_name"@) matches Some(name) ==> name.is_prefix_of(title)
    &&& candidate.text_field("file_path"@) matches Some(file)
    &&& candidate.unsigned_field("line"@) matches Some(line)
    &&& (file + ":"@ + decimal(line as nat)).is_suffix_of(title)
}

/// Whether a field of a form lists candidates, each once and in order.
pub open spec fn lists_candidates(field: FieldView, candidates: Seq<JsonView>) -> bool {
    &&& field matches FieldView::Choice { values, titles }
    &&& values.len() == candidates.len()
    &&& titles.len() == candidates.len()
    &&& forall|i: int|
        0 <= i < candidates.len() ==> lists_candidate(
            #[trigger] candidates[i],
            values[i],
            titles[i],
        )
}

proof fn lemma_candidate_is_listed(candidate: JsonView)
    requires
        can_be_listed(candidate),
    ensures
        lists_candidate(candidate, listed_value(candidate), listed_title(candidate)),
{
    let name = candidate_name(candidate, candidate_ref(candidate)->Some_0)->Some_0;
    let file = candidate.text_field("file_path"@)->Some_0;
    let line = candidate.unsigned_field("line"@)->Some_0;
    let title = listed_title(candidate);
    let end = file + ":"@ + decimal(line as nat);
    assert(title =~= name + " — "@ + end);
    assert(title.subrange(0, name.len() as int) =~= name);
    assert(title.subrange(title.len() - end.len(), title.len() as int) =~= end);
}

/// The form lists every candidate, in order; it is only put where there are at least two and
/// the result is ambiguous.
pub proof fn law_form_lists_every_candidate(form: FormRequest, body: JsonView)
    requires
        asks_to_choose(Some(form), Some(body)),
    ensures
        body.bool_field("ambiguous"@) == Some(true),
        body.field("candidates"@) matches Some(JsonView::Array(candidates)) && (candidates.len()
            >= 2 && crate::forms::schema_fields(form.schema).contains_key("selection"@)
            && lists_candidates(
            crate::forms::schema_fields(form.schema)["selection"@],
            candidates,
        )),
{
    let candidates = choosable(body)->Some_0;
    assert forall|i: int| 0 <= i < candidates.len() implies lists_candidate(
        #[trigger] candidates[i],
        listed_value(candidates[i]),
        listed_title(candidates[i]),
    ) by {
        assert(can_be_listed(candidates[i]));
        lemma_candidate_is_listed(candidates[i]);
    }
}

/// Nothing is asked where the result is not ambiguous, or leaves nothing to choose from.
pub proof fn law_nothing_is_asked_without_a_choice(form: Option<FormRequest>, body: JsonView)
    requires
        asks_to_choose(form, Some(body)),
        body.bool_field("ambiguous"@) != Some(true) || !(body.field("candidates"@) matches Some(
            JsonView::Array(candidates),
        ) && candidates.len() >= 2),
    ensures
        form is None,
{
}

/// A form is put only to clients that may be asked, about explorations that leave a choice;
/// every other result is answered as it is.
pub proof fn law_only_explorations_are_asked_about(
    tool_name: Seq<char>,
    result: CallToolResult,
    allow_candidate: bool,
)
    ensures
        answered_with_form(tool_name, result, allow_candidate) ==> tool_name == "explore"@
            && allow_candidate && result.is_error != Some(true) && (result_body(result) matches
            Some(body) && body.bool_field("ambiguous"@) == Some(true)),
        tool_name == "explore"@ && allow_candidate && (result_body(result) matches Some(body)
            && choosable(body) is Some) ==> answered_with_form(tool_name, result, allow_candidate),
{
}

/// A form is put wherever a result is ambiguous, names at least two candidates, and each has
/// a selector, a name, a file and a line.
pub proof fn law_a_choice_is_asked_for(
    form: Option<FormRequest>,
    body: JsonView,
    candidates: Seq<JsonView>,
)
    requires
        asks_to_choose(form, Some(body)),
        body.bool_field("ambiguous"@) == Some(true),
        body.field("candidates"@) == Some(JsonView::Array(candidates)),
        candidates.len() >= 2,
        forall|i: int|
            0 <= i < candidates.len() ==> ((#[trigger] candidates[i]).field("symbol_ref"@) matches
                Some(JsonView::Object(_))) && candidates[i].text_field("qualified_name"@) is Some
                && candidates[i].text_field("file_path"@) is Some && candidates[i].unsigned_field(
                "line"@,
            ) is Some,
    ensures
        form is Some,
{
    assert forall|i: int| 0 <= i < candidates.len() implies can_be_listed(
        #[trigger] candidates[i],
    ) by {}
}

/// A decision is what became of the choice: what is refused is an error of the request.
pub proof fn law_decisions_follow_the_choice(
    choice: Choice,
    decision: Result<ExploreCandidateDecision, AdapterError>,
)
    requires
        decides(choice, decision),
    ensures
        decision is Err <==> choice is Refuse,
        decision matches Ok(ExploreCandidateDecision::Accept(args)) ==> choice == Choice::Accept(
            args@,
        ),
        decision matches Ok(ExploreCandidateDecision::Decline) ==> choice is Decline,
        decision matches Err(e) ==> e.code is InvalidParams && choice == Choice::Refuse(e.message@),
{
}

} // verus!
