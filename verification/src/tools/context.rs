//! The context of a symbol: how its name is resolved, tier by tier, and what is
//! answered.

use vstd::prelude::*;
use vstd::string::*;

use crate::json::{items_view, json_view, no_fields, Json, JsonObject, JsonView};
use crate::protocol::{text_array, texts_to_json};
use crate::text::{
    contains_text, holds_text, lines_from, lowercase, split_lines, string_view, strings_view,
    to_lower,
};
use crate::tools::args::{flag_arg, flag_of};
use crate::tools::call_graph::places_view;
use crate::tools::calls::{checked_symbol, symbol_refusal};
use crate::tools::edges::{edge_name, EdgeKind};
use crate::tools::explore::{offered_json, offered_view};
use crate::tools::symbols::{
    line_number, shown_line, ScoredCandidate, SymbolFacts, SymbolId, SymbolInput, SymbolResolution,
    SymbolSelector,
};
use crate::tools::unresolved::in_range;

verus! {

/// What a context request asks for.
pub struct ContextPlan {
    pub input: SymbolInput,
    pub include_code: bool,
    pub include_file_peers: bool,
}

/// Reads a context request.
pub fn plan_context(
    args: &Json,
    input: Result<SymbolInput, String>,
    max_name_length: usize,
) -> (plan: Result<ContextPlan, String>)
    ensures
        match plan {
            Ok(p) => input == Ok::<SymbolInput, String>(p.input) && symbol_refusal(
                input,
                max_name_length as nat,
            ) is None && p.include_code == flag_of(args@, "includeCode"@, false)
                && p.include_file_peers == flag_of(args@, "includeFilePeers"@, true),
            Err(e) => symbol_refusal(input, max_name_length as nat) == Some(e@),
        },
{
    match checked_symbol(input, max_name_length) {
        Ok(symbol) => Ok(
            ContextPlan {
                input: symbol,
                include_code: flag_arg(args, "includeCode", false),
                include_file_peers: flag_arg(args, "includeFilePeers", true),
            },
        ),
        Err(e) => Err(e),
    }
}

/// How far the resolution of a name has come.
#[derive(Clone, Copy, Debug, PartialEq, Eq)]
pub enum ContextPhase {
    /// The name is being resolved.
    Resolving,
    /// The symbol that it resolves to is being fetched.
    Fetching(SymbolId),
    /// Symbols with the simple name are being looked up.
    Naming,
    /// More files are being analysed.
    Extracting,
    /// The name is being resolved once more.
    ResolvingAgain,
    /// Symbols with the simple name are being looked up once more.
    NamingAgain,
    /// The resolution is over.
    Settled,
}

/// What came of an action.
pub enum ContextEvent {
    /// The name was resolved.
    Resolved(SymbolResolution),
    /// The name could not be resolved.
    ResolveFailed(String),
    /// Whether the symbol is stored.
    Fetched(bool),
    /// The symbols with the simple name.
    Named(Vec<SymbolFacts>),
    /// More files have been analysed.
    Extracted,
}

/// What to do next.
pub enum ContextAction {
    /// Fetch the symbol.
    Fetch(SymbolId),
    /// Look up the symbols with the simple name.
    LookUpName,
    /// Analyse more files.
    Extract,
    /// Resolve the name once more.
    ResolveAgain,
    /// Answer with the context of a symbol. Its file is analysed first, if so said;
    /// how the name was resolved is part of the answer, if so said.
    Found { symbol_id: SymbolId, focus_first: bool, resolved_by_selector: bool },
    /// Answer with candidates.
    Ambiguous(Vec<ScoredCandidate>),
    /// Answer that there is no such symbol.
    NotFound(String),
    /// Fail.
    Fail(String),
}

/// Whether an event answers the action of a phase.
pub open spec fn answers(phase: ContextPhase, event: ContextEvent) -> bool {
    match phase {
        ContextPhase::Resolving => event is Resolved || event is ResolveFailed,
        ContextPhase::Fetching(_) => event is Fetched,
        ContextPhase::Naming => event is Named,
        ContextPhase::Extracting => event is Extracted,
        ContextPhase::ResolvingAgain => event is Resolved || event is ResolveFailed,
        ContextPhase::NamingAgain => event is Named,
        ContextPhase::Settled => false,
    }
}

/// The places of the symbols whose qualified name holds a name, whatever the case of
/// letters.
pub open spec fn similar_places(symbols: Seq<SymbolFacts>, qname: Seq<char>, n: nat) -> Seq<int>
    decreases n,
{
    if n == 0 {
        Seq::empty()
    } else {
        let before = similar_places(symbols, qname, (n - 1) as nat);
        if holds_text(lowercase(symbols[n - 1].qualified_name@), lowercase(qname)) {
            before.push(n - 1)
        } else {
            before
        }
    }
}

fn find_similar(symbols: &Vec<SymbolFacts>, qname: &str) -> (places: Vec<usize>)
    ensures
        places_view(places@) == similar_places(symbols@, qname@, symbols@.len()),
        in_range(places@, symbols@.len()),
{
    let wanted = to_lower(qname);
    let mut places: Vec<usize> = Vec::new();
    let mut i: usize = 0;
    proof {
        assert(places_view(places@) =~= Seq::empty());
    }
    while i < symbols.len()
        invariant
            i <= symbols@.len(),
            wanted@ == lowercase(qname@),
            in_range(places@, symbols@.len()),
            places_view(places@) == similar_places(symbols@, qname@, i as nat),
        decreases symbols@.len() - i,
    {
        let lower = to_lower(symbols[i].qualified_name.as_str());
        if contains_text(lower.as_str(), wanted.as_str()) {
            let ghost before = places@;
            places.push(i);
            proof {
                assert(places_view(places@) =~= places_view(before).push(i as int));
            }
        }
        i = i + 1;
    }
    places
}

/// Whether a candidate stands for a symbol that was found by its simple name.
pub open spec fn is_name_candidate(candidate: ScoredCandidate, symbol: SymbolFacts) -> bool {
    &&& candidate.qualified_name@ == symbol.qualified_name@
    &&& candidate.file_path@ == symbol.file_path@
    &&& candidate.line == shown_line(symbol.start_line)
    &&& candidate.kind@ == symbol.kind_name@
    &&& candidate.language@ == symbol.language@
    &&& candidate.score == 0
    &&& strings_view(candidate.reasons@) == seq!["name_match"@]
    &&& candidate.symbol_ref.qualified_name@ == symbol.qualified_name@
    &&& string_view(candidate.symbol_ref.file_path) == Some(symbol.file_path@)
    &&& candidate.symbol_ref.line == Some(shown_line(symbol.start_line))
    &&& string_view(candidate.symbol_ref.kind) == Some(symbol.kind_name@)
    &&& string_view(candidate.symbol_ref.language) == Some(symbol.language@)
    &&& candidate.symbol_id@ == symbol.symbol_id@
}

/// Whether candidates stand for the first symbols at some places.
pub open spec fn are_name_candidates(
    candidates: Seq<ScoredCandidate>,
    symbols: Seq<SymbolFacts>,
    places: Seq<int>,
    max_candidates: nat,
) -> bool {
    &&& candidates.len() == (if places.len() < max_candidates {
        places.len()
    } else {
        max_candidates
    })
    &&& forall|i: int|
        0 <= i < candidates.len() ==> is_name_candidate(
            #[trigger] candidates[i],
            symbols[places[i]],
        )
}

fn name_candidate(symbol: &SymbolFacts) -> (candidate: ScoredCandidate)
    ensures
        is_name_candidate(candidate, *symbol),
{
    let line: u32 = line_number(symbol.start_line);
    let mut reasons: Vec<String> = Vec::new();
    reasons.push("name_match".to_owned());
    proof {
        assert(strings_view(reasons@) =~= seq!["name_match"@]);
    }
    ScoredCandidate {
        qualified_name: symbol.qualified_name.clone(),
        file_path: symbol.file_path.clone(),
        line,
        kind: symbol.kind_name.clone(),
        language: symbol.language.clone(),
        score: 0,
        reasons,
        symbol_ref: SymbolSelector {
            qualified_name: symbol.qualified_name.clone(),
            file_path: Some(symbol.file_path.clone()),
            line: Some(line),
            kind: Some(symbol.kind_name.clone()),
            language: Some(symbol.language.clone()),
        },
        symbol_id: symbol.symbol_id,
    }
}

fn name_candidates(
    symbols: &Vec<SymbolFacts>,
    places: &Vec<usize>,
    max_candidates: usize,
) -> (candidates: Vec<ScoredCandidate>)
    requires
        in_range(places@, symbols@.len()),
    ensures
        are_name_candidates(
            candidates@,
            symbols@,
            places_view(places@),
            max_candidates as nat,
        ),
{
    let mut candidates: Vec<ScoredCandidate> = Vec::new();
    let mut i: usize = 0;
    while i < places.len() && i < max_candidates
        invariant
            i <= places@.len(),
            i <= max_candidates,
            in_range(places@, symbols@.len()),
            candidates@.len() == i,
            forall|j: int|
                0 <= j < i ==> is_name_candidate(
                    #[trigger] candidates@[j],
                    symbols@[places_view(places@)[j]],
                ),
        decreases places@.len() - i,
    {
        candidates.push(name_candidate(&symbols[places[i]]));
        i = i + 1;
    }
    candidates
}

fn all_places(n: usize) -> (places: Vec<usize>)
    ensures
        places_view(places@) == Seq::new(n as nat, |i: int| i),
        in_range(places@, n as nat),
{
    let mut places: Vec<usize> = Vec::new();
    let mut k: usize = 0;
    while k < n
        invariant
            k <= n,
            places@.len() == k,
            in_range(places@, n as nat),
            forall|j: int| 0 <= j < k ==> (#[trigger] places@[j]) == j,
        decreases n - k,
    {
        places.push(k);
        k = k + 1;
    }
    proof {
        assert(places_view(places@) =~= Seq::new(n as nat, |i: int| i));
    }
    places
}

/// What a request is told whose symbol is nowhere.
pub open spec fn nowhere_message(qname: Seq<char>, guidance: Seq<char>) -> Seq<char> {
    "Symbol '"@ + qname
        + "' not found by qualified name or simple name. Try 'search' first to discover the correct qualified_name for this symbol."@
        + guidance
}

/// Whether an action answers with a symbol.
pub open spec fn finds(
    action: ContextAction,
    id: Seq<u8>,
    focus_first: bool,
    resolved_by_selector: bool,
) -> bool {
    action matches ContextAction::Found { symbol_id, focus_first: f, resolved_by_selector: r }
        && symbol_id@ == id && f == focus_first && r == resolved_by_selector
}

/// What follows from an event. A name that resolves to one stored symbol, or to
/// several, is settled at once. Otherwise symbols with the simple name count: one
/// alone, or one alone of those whose qualified name is similar, or the similar ones
/// as candidates. If that settles nothing, more files are analysed and both are
/// tried once more, where any symbols with the simple name count.
pub open spec fn follows(
    phase: ContextPhase,
    event: ContextEvent,
    qname: Seq<char>,
    guidance: Seq<char>,
    max_candidates: nat,
    next: ContextPhase,
    action: ContextAction,
) -> bool {
    match (phase, event) {
        (ContextPhase::Resolving, ContextEvent::Resolved(resolution)) => match resolution {
            SymbolResolution::Single { symbol_id, .. } => next == ContextPhase::Fetching(symbol_id)
                && action == ContextAction::Fetch(symbol_id),
            SymbolResolution::Ambiguous { candidates, .. } => next is Settled && action
                == ContextAction::Ambiguous(candidates),
            SymbolResolution::NotFound { .. } => next is Naming && action is LookUpName,
        },
        (ContextPhase::Fetching(id), ContextEvent::Fetched(stored)) => if stored {
            next is Settled && finds(action, id@, true, true)
        } else {
            next is Naming && action is LookUpName
        },
        (ContextPhase::Naming, ContextEvent::Named(symbols)) => {
            let similar = similar_places(symbols@, qname, symbols@.len());
            if symbols@.len() == 1 {
                next is Settled && finds(action, symbols@[0].symbol_id@, true, false)
            } else if symbols@.len() > 1 && similar.len() == 1 {
                next is Settled && finds(action, symbols@[similar[0]].symbol_id@, true, false)
            } else if symbols@.len() > 1 && similar.len() > 1 {
                next is Settled && (action matches ContextAction::Ambiguous(candidates)
                    && are_name_candidates(candidates@, symbols@, similar, max_candidates))
            } else {
                next is Extracting && action is Extract
            }
        },
        (ContextPhase::Extracting, _) => next is ResolvingAgain && action is ResolveAgain,
        (ContextPhase::ResolvingAgain, ContextEvent::Resolved(resolution)) => match resolution {
            SymbolResolution::Single { symbol_id, .. } => next is Settled && finds(
                action,
                symbol_id@,
                false,
                false,
            ),
            SymbolResolution::Ambiguous { candidates, .. } => next is Settled && action
                == ContextAction::Ambiguous(candidates),
            SymbolResolution::NotFound { .. } => next is NamingAgain && action is LookUpName,
        },
        (ContextPhase::NamingAgain, ContextEvent::Named(symbols)) => next is Settled && (
        if symbols@.len() == 0 {
            action matches ContextAction::NotFound(message) && message@ == nowhere_message(
                qname,
                guidance,
            )
        } else if symbols@.len() == 1 {
            finds(action, symbols@[0].symbol_id@, false, false)
        } else {
            action matches ContextAction::Ambiguous(candidates) && are_name_candidates(
                candidates@,
                symbols@,
                Seq::new(symbols@.len(), |i: int| i),
                max_candidates,
            )
        }),
        (_, ContextEvent::ResolveFailed(message)) => next is Settled && action
            == ContextAction::Fail(message),
        _ => false,
    }
}

/// Takes the resolution of a name one step further.
pub fn resolve_context_symbol(
    phase: ContextPhase,
    event: ContextEvent,
    qname: &str,
    guidance: &str,
    max_candidates: usize,
) -> (step: (ContextPhase, ContextAction))
    requires
        answers(phase, event),
    ensures
        follows(phase, event, qname@, guidance@, max_candidates as nat, step.0, step.1),
{
    match (phase, event) {
        (ContextPhase::Resolving, ContextEvent::Resolved(resolution)) => match resolution {
            SymbolResolution::Single { symbol_id, .. } => (
                ContextPhase::Fetching(symbol_id),
                ContextAction::Fetch(symbol_id),
            ),
            SymbolResolution::Ambiguous { candidates, .. } => (
                ContextPhase::Settled,
                ContextAction::Ambiguous(candidates),
            ),
            SymbolResolution::NotFound { .. } => (
                ContextPhase::Naming,
                ContextAction::LookUpName,
            ),
        },
        (ContextPhase::Fetching(symbol_id), ContextEvent::Fetched(stored)) => if stored {
            (
                ContextPhase::Settled,
                ContextAction::Found {
                    symbol_id,
                    focus_first: true,
                    resolved_by_selector: true,
                },
            )
        } else {
            (ContextPhase::Naming, ContextAction::LookUpName)
        },
        (ContextPhase::Naming, ContextEvent::Named(symbols)) => {
            if symbols.len() == 1 {
                return (
                    ContextPhase::Settled,
                    ContextAction::Found {
                        symbol_id: symbols[0].symbol_id,
                        focus_first: true,
                        resolved_by_selector: false,
                    },
                );
            }
            if symbols.len() > 1 {
                let similar = find_similar(&symbols, qname);
                if similar.len() == 1 {
                    proof {
                        assert(places_view(similar@)[0] == similar@[0]);
                    }
                    return (
                        ContextPhase::Settled,
                        ContextAction::Found {
                            symbol_id: symbols[similar[0]].symbol_id,
                            focus_first: true,
                            resolved_by_selector: false,
                        },
                    );
                }
                if similar.len() > 1 {
                    return (
                        ContextPhase::Settled,
                        ContextAction::Ambiguous(
                            name_candidates(&symbols, &similar, max_candidates),
                        ),
                    );
                }
            }
            (ContextPhase::Extracting, ContextAction::Extract)
        },
        (ContextPhase::Extracting, _) => (
            ContextPhase::ResolvingAgain,
            ContextAction::ResolveAgain,
        ),
        (ContextPhase::ResolvingAgain, ContextEvent::Resolved(resolution)) => match resolution {
            SymbolResolution::Single { symbol_id, .. } => (
                ContextPhase::Settled,
                ContextAction::Found {
                    symbol_id,
                    focus_first: false,
                    resolved_by_selector: false,
                },
            ),
            SymbolResolution::Ambiguous { candidates, .. } => (
                ContextPhase::Settled,
                ContextAction::Ambiguous(candidates),
            ),
            SymbolResolution::NotFound { .. } => (
                ContextPhase::NamingAgain,
                ContextAction::LookUpName,
            ),
        },
        (ContextPhase::NamingAgain, ContextEvent::Named(symbols)) => {
            let total: usize = symbols.len();
            if total == 0 {
                let mut message = "Symbol '".to_owned();
                message.append(qname);
                message.append(
                    "' not found by qualified name or simple name. Try 'search' first to discover the correct qualified_name for this symbol.",
                );
                message.append(guidance);
                (ContextPhase::Settled, ContextAction::NotFound(message))
            } else if total == 1 {
                (
                    ContextPhase::Settled,
                    ContextAction::Found {
                        symbol_id: symbols[0].symbol_id,
                        focus_first: false,
                        resolved_by_selector: false,
                    },
                )
            } else {
                let places = all_places(total);
                (
                    ContextPhase::Settled,
                    ContextAction::Ambiguous(name_candidates(&symbols, &places, max_candidates)),
                )
            }
        },
        (_, ContextEvent::ResolveFailed(message)) => (
            ContextPhase::Settled,
            ContextAction::Fail(message),
        ),
        _ => {
            proof {
                assert(false);
            }
            (ContextPhase::Settled, ContextAction::LookUpName)
        },
    }
}

/// How many steps a resolution has before it at most.
pub open spec fn steps_left(phase: ContextPhase) -> nat {
    match phase {
        ContextPhase::Resolving => 6,
        ContextPhase::Fetching(_) => 5,
        ContextPhase::Naming => 4,
        ContextPhase::Extracting => 3,
        ContextPhase::ResolvingAgain => 2,
        ContextPhase::NamingAgain => 1,
        ContextPhase::Settled => 0,
    }
}

/// The resolution of a name comes to an end: every step leaves fewer.
pub proof fn law_resolution_ends(
    phase: ContextPhase,
    event: ContextEvent,
    qname: Seq<char>,
    guidance: Seq<char>,
    max_candidates: nat,
    next: ContextPhase,
    action: ContextAction,
)
    requires
        answers(phase, event),
        follows(phase, event, qname, guidance, max_candidates, next, action),
    ensures
        steps_left(next) < steps_left(phase),
{
}

/// A name is reported as unknown only after more files have been analysed and it
/// has been looked up in every way once more.
pub proof fn law_not_found_comes_last(
    phase: ContextPhase,
    event: ContextEvent,
    qname: Seq<char>,
    guidance: Seq<char>,
    max_candidates: nat,
    next: ContextPhase,
    action: ContextAction,
)
    requires
        answers(phase, event),
        follows(phase, event, qname, guidance, max_candidates, next, action),
        action is NotFound,
    ensures
        phase is NamingAgain,
{
}

/// The response to a context request for an ambiguous name.
pub open spec fn ambiguous_context_fields(
    candidates: Seq<ScoredCandidate>,
) -> Map<Seq<char>, JsonView> {
    no_fields().insert("ambiguous"@, JsonView::Bool(true)).insert(
        "count"@,
        JsonView::Unsigned(candidates.len() as u64),
    ).insert(
        "candidates"@,
        JsonView::Array(Seq::new(candidates.len(), |i: int| offered_view(candidates[i]))),
    ).insert(
        "next_query"@,
        JsonView::Str("Pick a candidate and use its symbol_ref as symbol parameter."@),
    )
}

/// The response to a context request for an ambiguous name.
pub fn ambiguous_context_body(candidates: &Vec<ScoredCandidate>) -> (body: Json)
    ensures
        body@ == JsonView::Object(ambiguous_context_fields(candidates@)),
{
    let mut items: Vec<Json> = Vec::new();
    let mut i: usize = 0;
    while i < candidates.len()
        invariant
            i <= candidates@.len(),
            items@.len() == i,
            forall|j: int| 0 <= j < i ==> (#[trigger] items@[j])@ == offered_view(candidates@[j]),
        decreases candidates@.len() - i,
    {
        items.push(offered_json(&candidates[i]));
        i = i + 1;
    }
    proof {
        assert(items_view(items@) =~= Seq::new(
            candidates@.len(),
            |i: int| offered_view(candidates@[i]),
        ));
    }
    let mut object = JsonObject::new();
    object.put("ambiguous", Json::Bool(true));
    object.put("count", Json::count(candidates.len()));
    object.put("candidates", Json::Array(items));
    object.put(
        "next_query",
        Json::text("Pick a candidate and use its symbol_ref as symbol parameter."),
    );
    Json::Object(object)
}

/// A part of the source of a symbol.
pub struct SourceExcerpt {
    pub lines: Vec<String>,
    pub start_line: u32,
    pub total_lines: u32,
    pub truncated: bool,
}

/// A call to or from a symbol.
pub struct CallDetail {
    /// The symbol at the other end, as it is listed.
    pub symbol: Json,
    pub qualified_name: String,
    pub callsite_line: Json,
    pub callsite_snippet: Json,
    pub edge_kind: EdgeKind,
    pub signature: Json,
}

/// What is known around a symbol.
pub struct ContextView {
    pub subject: Json,
    pub subject_name: String,
    pub subject_qualified_name: String,
    pub subject_file_path: Json,
    pub subject_source: Option<SourceExcerpt>,
    pub caller_details: Vec<CallDetail>,
    pub callee_details: Vec<CallDetail>,
    pub file_peers: Json,
    pub importers: Json,
    pub dependencies: Json,
}

/// Source as it is listed.
pub open spec fn source_fields(
    lines: Seq<Seq<char>>,
    start_line: u32,
    total_lines: u32,
    truncated: bool,
) -> JsonView {
    JsonView::Object(
        no_fields().insert("lines"@, text_array(lines)).insert(
            "start_line"@,
            JsonView::Unsigned(start_line as u64),
        ).insert("total_lines"@, JsonView::Unsigned(total_lines as u64)).insert(
            "truncated"@,
            JsonView::Bool(truncated),
        ),
    )
}

/// The source that is listed: all of it, where it is asked for and can be read.
pub open spec fn listed_source(
    excerpt: Option<SourceExcerpt>,
    include_code: bool,
    source: Option<Seq<char>>,
) -> Option<JsonView> {
    match (include_code, source) {
        (true, Some(text)) => Some(
            source_fields(
                lines_from(text, 0),
                match excerpt {
                    Some(e) => e.start_line,
                    None => 0,
                },
                lines_from(text, 0).len() as u32,
                false,
            ),
        ),
        _ => match excerpt {
            Some(e) => Some(
                source_fields(strings_view(e.lines@), e.start_line, e.total_lines, e.truncated),
            ),
            None => None,
        },
    }
}

fn source_to_json(
    lines: &Vec<String>,
    start_line: u32,
    total_lines: u32,
    truncated: bool,
) -> (json: Json)
    ensures
        json@ == source_fields(strings_view(lines@), start_line, total_lines, truncated),
{
    let mut object = JsonObject::new();
    object.put("lines", texts_to_json(lines));
    object.put("start_line", Json::Unsigned(start_line as u64));
    object.put("total_lines", Json::Unsigned(total_lines as u64));
    object.put("truncated", Json::Bool(truncated));
    Json::Object(object)
}

fn source_of(
    excerpt: &Option<SourceExcerpt>,
    include_code: bool,
    source: &Option<String>,
) -> (json: Option<Json>)
    ensures
        json_view(json) == listed_source(*excerpt, include_code, string_view(*source)),
{
    if include_code {
        match source {
            Some(text) => {
                let lines = split_lines(text.as_str());
                let start_line: u32 = match excerpt {
                    Some(e) => e.start_line,
                    None => 0,
                };
                let count: usize = lines.len();
                let total: u32 = #[verifier::truncate]
                (count as u32);
                return Some(source_to_json(&lines, start_line, total, false));
            },
            None => {},
        }
    }
    match excerpt {
        Some(e) => Some(source_to_json(&e.lines, e.start_line, e.total_lines, e.truncated)),
        None => None,
    }
}

/// A caller as it is listed.
pub open spec fn caller_view(call: CallDetail) -> Map<Seq<char>, JsonView> {
    no_fields().insert("symbol"@, call.symbol@).insert("callsite_line"@, call.callsite_line@).insert(
        "callsite_snippet"@,
        call.callsite_snippet@,
    ).insert("edge_kind"@, JsonView::Str(edge_name(call.edge_kind)))
}

/// Callers as they are listed.
pub open spec fn callers_view(calls: Seq<CallDetail>) -> JsonView {
    JsonView::Array(Seq::new(calls.len(), |i: int| JsonView::Object(caller_view(calls[i]))))
}

/// Callees as they are listed.
pub open spec fn callees_view(calls: Seq<CallDetail>) -> JsonView {
    JsonView::Array(
        Seq::new(
            calls.len(),
            |i: int|
                JsonView::Object(
                    caller_view(calls[i]).insert("callee_signature"@, calls[i].signature@),
                ),
        ),
    )
}

fn caller_object(call: &CallDetail) -> (object: JsonObject)
    ensures
        object@ == caller_view(*call),
{
    let mut object = JsonObject::new();
    object.put("symbol", call.symbol.clone());
    object.put("callsite_line", call.callsite_line.clone());
    object.put("callsite_snippet", call.callsite_snippet.clone());
    object.put("edge_kind", Json::text(call.edge_kind.as_str()));
    object
}

fn callers_to_json(calls: &Vec<CallDetail>) -> (json: Json)
    ensures
        json@ == callers_view(calls@),
{
    let mut items: Vec<Json> = Vec::new();
    let mut i: usize = 0;
    while i < calls.len()
        invariant
            i <= calls@.len(),
            items@.len() == i,
            forall|j: int|
                0 <= j < i ==> (#[trigger] items@[j])@ == JsonView::Object(caller_view(calls@[j])),
        decreases calls@.len() - i,
    {
        items.push(Json::Object(caller_object(&calls[i])));
        i = i + 1;
    }
    proof {
        assert(callers_view(calls@) matches JsonView::Array(listed) && items_view(items@)
            =~= listed);
    }
    Json::Array(items)
}

fn callees_to_json(calls: &Vec<CallDetail>) -> (json: Json)
    ensures
        json@ == callees_view(calls@),
{
    let mut items: Vec<Json> = Vec::new();
    let mut i: usize = 0;
    while i < calls.len()
        invariant
            i <= calls@.len(),
            items@.len() == i,
            forall|j: int|
                0 <= j < i ==> (#[trigger] items@[j])@ == JsonView::Object(
                    caller_view(calls@[j]).insert("callee_signature"@, calls@[j].signature@),
                ),
        decreases calls@.len() - i,
    {
        let mut object = caller_object(&calls[i]);
        object.put("callee_signature", calls[i].signature.clone());
        items.push(Json::Object(object));
        i = i + 1;
    }
    proof {
        assert(callees_view(calls@) matches JsonView::Array(listed) && items_view(items@)
            =~= listed);
    }
    Json::Array(items)
}

/// The queries that may follow.
pub open spec fn trail_fields(view: ContextView) -> Map<Seq<char>, JsonView> {
    let source = no_fields().insert(
        "full_source"@,
        JsonView::Str(
            "explore with includeCode=true, symbol: \""@ + view.subject_qualified_name@ + "\""@,
        ),
    );
    let calls = if view.callee_details@.len() > 0 {
        source.insert(
            "calls"@,
            JsonView::Str(
                "symbol with view=context, qname: \""@ + view.callee_details@[0].qualified_name@
                    + "\""@,
            ),
        )
    } else {
        source
    };
    if view.caller_details@.len() > 0 {
        calls.insert(
            "called_by"@,
            JsonView::Str("trace with kind=callers, symbol: \""@ + view.subject_name@ + "\""@),
        )
    } else {
        calls
    }
}

fn quoted(start: &str, name: &str) -> (text: String)
    ensures
        text@ == start@ + name@ + "\""@,
{
    let mut text = start.to_owned();
    text.append(name);
    text.append("\"");
    text
}

fn trail_to_json(view: &ContextView) -> (json: Json)
    ensures
        json@ == JsonView::Object(trail_fields(*view)),
{
    let mut object = JsonObject::new();
    object.put(
        "full_source",
        Json::Str(
            quoted(
                "explore with includeCode=true, symbol: \"",
                view.subject_qualified_name.as_str(),
            ),
        ),
    );
    if view.callee_details.len() > 0 {
        object.put(
            "calls",
            Json::Str(
                quoted(
                    "symbol with view=context, qname: \"",
                    view.callee_details[0].qualified_name.as_str(),
                ),
            ),
        );
    }
    if view.caller_details.len() > 0 {
        object.put(
            "called_by",
            Json::Str(
                quoted("trace with kind=callers, symbol: \"", view.subject_name.as_str()),
            ),
        );
    }
    Json::Object(object)
}

/// The response to a context request.
pub open spec fn context_fields(
    qname: Seq<char>,
    view: ContextView,
    include_code: bool,
    source: Option<Seq<char>>,
    resolved: Option<JsonView>,
) -> Map<Seq<char>, JsonView> {
    let base = no_fields().insert("symbol"@, JsonView::Str(qname)).insert(
        "view"@,
        JsonView::Str("context"@),
    ).insert("subject"@, view.subject@).insert(
        "subject_file_path"@,
        view.subject_file_path@,
    ).insert("caller_details"@, callers_view(view.caller_details@)).insert(
        "callee_details"@,
        callees_view(view.callee_details@),
    ).insert("file_peers"@, view.file_peers@).insert("importers"@, view.importers@).insert(
        "dependencies"@,
        view.dependencies@,
    ).insert("trail"@, JsonView::Object(trail_fields(view)));
    let sourced = match listed_source(view.subject_source, include_code, source) {
        Some(s) => base.insert("subject_source"@, s),
        None => base,
    };
    match resolved {
        Some(r) => sourced.insert("resolved"@, r),
        None => sourced,
    }
}

/// The response to a context request. The source is what was read of the symbol.
pub fn build_context_response(
    qname: &str,
    view: &ContextView,
    include_code: bool,
    source: &Option<String>,
    resolved: Option<Json>,
) -> (body: Json)
    ensures
        body@ == JsonView::Object(
            context_fields(
                qname@,
                *view,
                include_code,
                string_view(*source),
                json_view(resolved),
            ),
        ),
{
    let mut object = JsonObject::new();
    object.put("symbol", Json::text(qname));
    object.put("view", Json::text("context"));
    object.put("subject", view.subject.clone());
    object.put("subject_file_path", view.subject_file_path.clone());
    object.put("caller_details", callers_to_json(&view.caller_details));
    object.put("callee_details", callees_to_json(&view.callee_details));
    object.put("file_peers", view.file_peers.clone());
    object.put("importers", view.importers.clone());
    object.put("dependencies", view.dependencies.clone());
    object.put("trail", trail_to_json(view));
    match source_of(&view.subject_source, include_code, source) {
        Some(s) => {
            object.put("subject_source", s);
        },
        None => {},
    }
    match resolved {
        Some(r) => {
            object.put("resolved", r);
        },
        None => {},
    }
    Json::Object(object)
}

/// The arguments under which a context query is resumed.
pub open spec fn resumed_args(args: JsonView) -> JsonView {
    match args {
        JsonView::Object(fields) => JsonView::Object(
            fields.insert("view"@, JsonView::Str("context"@)),
        ),
        other => other,
    }
}

/// The arguments under which a context query is resumed.
pub fn stored_context_args(args: &Json) -> (stored: Json)
    ensures
        stored@ == resumed_args(args@),
{
    match args {
        Json::Object(object) => {
            let mut fields = object.clone();
            fields.put("view", Json::text("context"));
            Json::Object(fields)
        },
        other => other.clone(),
    }
}

/// The similar symbols are those whose qualified name holds the name, whatever the case of
/// letters: all of them, each once, in order.
pub proof fn law_similar_symbols_hold_the_name(
    symbols: Seq<SymbolFacts>,
    qname: Seq<char>,
    n: nat,
)
    requires
        n <= symbols.len(),
    ensures
        ({
            let places = similar_places(symbols, qname, n);
            &&& forall|i: int|
                0 <= i < places.len() ==> 0 <= #[trigger] places[i] < n && holds_text(
                    lowercase(symbols[places[i]].qualified_name@),
                    lowercase(qname),
                )
            &&& forall|i: int, j: int|
                0 <= i < j < places.len() ==> #[trigger] places[i] < #[trigger] places[j]
            &&& forall|at: int|
                0 <= at < n && holds_text(
                    lowercase((#[trigger] symbols[at]).qualified_name@),
                    lowercase(qname),
                ) ==> places.contains(at)
        }),
    decreases n,
{
    if n > 0 {
        law_similar_symbols_hold_the_name(symbols, qname, (n - 1) as nat);
        let before = similar_places(symbols, qname, (n - 1) as nat);
        let places = similar_places(symbols, qname, n);
        assert forall|i: int| 0 <= i < places.len() implies 0 <= #[trigger] places[i] < n
            && holds_text(lowercase(symbols[places[i]].qualified_name@), lowercase(qname)) by {
            if i < before.len() {
                assert(places[i] == before[i]);
            }
        }
        assert forall|i: int, j: int| 0 <= i < j < places.len() implies #[trigger] places[i]
            < #[trigger] places[j] by {
            assert(places[i] == before[i]);
            if j < before.len() {
                assert(places[j] == before[j]);
            }
        }
        assert forall|at: int|
            0 <= at < n && holds_text(
                lowercase((#[trigger] symbols[at]).qualified_name@),
                lowercase(qname),
            ) implies places.contains(at) by {
            if at < n - 1 {
                assert(before.contains(at));
                let k = choose|k: int| 0 <= k < before.len() && before[k] == at;
                assert(places[k] == at);
            } else {
                assert(places[before.len() as int] == at);
            }
        }
    }
}

/// Whether one of the symbols has an identifier.
pub open spec fn has_symbol(symbols: Seq<SymbolFacts>, id: Seq<u8>) -> bool {
    exists|at: int| 0 <= at < symbols.len() && (#[trigger] symbols[at]).symbol_id@ == id
}

/// A symbol is only answered with where a step came upon it: it was resolved to and is
/// stored, or it is among those that have the name, alone or as the only similar one.
pub proof fn law_found_symbol_was_come_upon(
    phase: ContextPhase,
    event: ContextEvent,
    qname: Seq<char>,
    guidance: Seq<char>,
    max_candidates: nat,
    next: ContextPhase,
    action: ContextAction,
)
    requires
        answers(phase, event),
        follows(phase, event, qname, guidance, max_candidates, next, action),
    ensures
        next is Settled <==> (action is Found || action is Ambiguous || action is NotFound || action
            is Fail),
        action matches ContextAction::Found { symbol_id, .. } ==> match (phase, event) {
            (ContextPhase::Fetching(id), ContextEvent::Fetched(stored)) => stored && symbol_id@
                == id@,
            (ContextPhase::Naming, ContextEvent::Named(symbols)) => has_symbol(
                symbols@,
                symbol_id@,
            ) && (symbols@.len() > 1 ==> exists|at: int|
                0 <= at < symbols@.len() && (#[trigger] symbols@[at]).symbol_id@ == symbol_id@
                    && holds_text(lowercase(symbols@[at].qualified_name@), lowercase(qname))),
            (
                ContextPhase::ResolvingAgain,
                ContextEvent::Resolved(SymbolResolution::Single { symbol_id: id, .. }),
            ) => symbol_id@ == id@,
            (ContextPhase::NamingAgain, ContextEvent::Named(symbols)) => symbols@.len() == 1
                && symbols@[0].symbol_id@ == symbol_id@,
            _ => false,
        },
{
    if let (ContextPhase::Naming, ContextEvent::Named(symbols)) = (phase, event) {
        law_similar_symbols_hold_the_name(symbols@, qname, symbols@.len());
        let similar = similar_places(symbols@, qname, symbols@.len());
        if symbols@.len() == 1 {
            assert(symbols@[0].symbol_id@ == symbols@[0].symbol_id@);
        } else if symbols@.len() > 1 && similar.len() == 1 {
            assert(0 <= similar[0] < symbols@.len());
            assert(holds_text(
                lowercase(symbols@[similar[0]].qualified_name@),
                lowercase(qname),
            ));
        }
    }
}

/// A request for an ambiguous name is offered every candidate, in order, and told how many
/// there are.
pub proof fn law_every_context_candidate_is_offered(candidates: Seq<ScoredCandidate>)
    ensures
        ({
            let body = JsonView::Object(ambiguous_context_fields(candidates));
            &&& body.bool_field("ambiguous"@) == Some(true)
            &&& body.unsigned_field("count"@) == Some(candidates.len() as u64)
            &&& body.field("candidates"@) matches Some(JsonView::Array(listed)) && listed.len()
                == candidates.len() && forall|i: int|
                0 <= i < listed.len() ==> crate::tools::explore::offers(
                    #[trigger] listed[i],
                    candidates[i],
                )
        }),
{
    reveal_strlit("ambiguous");
    reveal_strlit("count");
    reveal_strlit("candidates");
    reveal_strlit("next_query");
    assert("ambiguous"@.len() != "count"@.len());
    assert("ambiguous"@.len() != "candidates"@.len());
    assert("ambiguous"@.len() != "next_query"@.len());
    assert("count"@.len() != "candidates"@.len());
    assert("count"@.len() != "next_query"@.len());
    assert("candidates"@[0] != "next_query"@[0]);
    let body = JsonView::Object(ambiguous_context_fields(candidates));
    crate::tools::explore::law_every_candidate_is_offered(Seq::empty(), candidates, 0);
    let other = JsonView::Object(
        crate::tools::explore::ambiguous_fields(Seq::empty(), candidates, 0),
    );
    assert(other.field("candidates"@) == body.field("candidates"@)) by {
        reveal_strlit("symbol");
        reveal_strlit("score_gap");
    }
}

/// Whether a listed value tells a call.
pub open spec fn tells_call(listed: JsonView, call: CallDetail) -> bool {
    &&& listed.field("symbol"@) == Some(call.symbol@)
    &&& listed.field("callsite_line"@) == Some(call.callsite_line@)
    &&& listed.field("callsite_snippet"@) == Some(call.callsite_snippet@)
    &&& listed.text_field("edge_kind"@) == Some(edge_name(call.edge_kind))
}

/// Every caller and every callee is listed, in order; a callee with its signature.
pub proof fn law_every_call_is_listed(calls: Seq<CallDetail>)
    ensures
        callers_view(calls) matches JsonView::Array(listed) && listed.len() == calls.len()
            && forall|i: int| 0 <= i < listed.len() ==> tells_call(#[trigger] listed[i], calls[i]),
        callees_view(calls) matches JsonView::Array(listed) && listed.len() == calls.len()
            && forall|i: int|
            0 <= i < listed.len() ==> tells_call(#[trigger] listed[i], calls[i])
                && listed[i].field("callee_signature"@) == Some(calls[i].signature@),
{
    reveal_strlit("symbol");
    reveal_strlit("callsite_line");
    reveal_strlit("callsite_snippet");
    reveal_strlit("edge_kind");
    reveal_strlit("callee_signature");
    assert("symbol"@.len() != "callsite_line"@.len());
    assert("symbol"@.len() != "callsite_snippet"@.len());
    assert("symbol"@.len() != "edge_kind"@.len());
    assert("symbol"@.len() != "callee_signature"@.len());
    assert("callsite_line"@.len() != "callsite_snippet"@.len());
    assert("callsite_line"@.len() != "edge_kind"@.len());
    assert("callsite_line"@.len() != "callee_signature"@.len());
    assert("callsite_snippet"@.len() != "edge_kind"@.len());
    assert("callsite_snippet"@[4] != "callee_signature"@[4]);
    assert("edge_kind"@.len() != "callee_signature"@.len());
    if let JsonView::Array(listed) = callers_view(calls) {
        assert forall|i: int| 0 <= i < listed.len() implies tells_call(
            #[trigger] listed[i],
            calls[i],
        ) by {
            assert(listed[i] == JsonView::Object(caller_view(calls[i])));
        }
    }
    if let JsonView::Array(listed) = callees_view(calls) {
        assert forall|i: int| 0 <= i < listed.len() implies tells_call(
            #[trigger] listed[i],
            calls[i],
        ) && listed[i].field("callee_signature"@) == Some(calls[i].signature@) by {
            assert(listed[i] == JsonView::Object(
                caller_view(calls[i]).insert("callee_signature"@, calls[i].signature@),
            ));
        }
    }
}

/// The whole source is told, line by line, where it is asked for and can be read; else the
/// excerpt is, where there is one.
pub proof fn law_source_is_told(
    excerpt: Option<SourceExcerpt>,
    include_code: bool,
    source: Option<Seq<char>>,
)
    requires
        source matches Some(text) ==> lines_from(text, 0).len() <= u32::MAX,
    ensures
        ({
            let told = listed_source(excerpt, include_code, source);
            let whole = include_code && source is Some;
            &&& told is Some == (whole || excerpt is Some)
            &&& told matches Some(listed) ==> {
                let lines = if whole {
                    lines_from(source->0, 0)
                } else {
                    strings_view(excerpt->0.lines@)
                };
                &&& listed.field("lines"@) matches Some(JsonView::Array(texts)) && texts.len()
                    == lines.len() && forall|i: int|
                    0 <= i < texts.len() ==> #[trigger] texts[i] == JsonView::Str(lines[i])
                &&& whole ==> listed.unsigned_field("total_lines"@) == Some(lines.len() as u64)
                    && listed.bool_field("truncated"@) == Some(false)
                &&& !whole ==> listed.unsigned_field("total_lines"@) == Some(
                    excerpt->0.total_lines as u64,
                ) && listed.bool_field("truncated"@) == Some(excerpt->0.truncated)
                &&& excerpt is Some ==> listed.unsigned_field("start_line"@) == Some(
                    excerpt->0.start_line as u64,
                )
            }
        }),
{
    reveal_strlit("lines");
    reveal_strlit("start_line");
    reveal_strlit("total_lines");
    reveal_strlit("truncated");
    assert("lines"@.len() != "start_line"@.len());
    assert("lines"@.len() != "total_lines"@.len());
    assert("lines"@.len() != "truncated"@.len());
    assert("start_line"@.len() != "total_lines"@.len());
    assert("start_line"@.len() != "truncated"@.len());
    assert("total_lines"@.len() != "truncated"@.len());
}

proof fn lemma_context_names_differ()
    ensures
        "symbol"@ != "view"@,
        "symbol"@ != "subject"@,
        "symbol"@ != "subject_file_path"@,
        "symbol"@ != "caller_details"@,
        "symbol"@ != "callee_details"@,
        "symbol"@ != "file_peers"@,
        "symbol"@ != "importers"@,
        "symbol"@ != "dependencies"@,
        "symbol"@ != "trail"@,
        "symbol"@ != "subject_source"@,
        "symbol"@ != "resolved"@,
        "view"@ != "subject"@,
        "view"@ != "subject_file_path"@,
        "view"@ != "caller_details"@,
        "view"@ != "callee_details"@,
        "view"@ != "file_peers"@,
        "view"@ != "importers"@,
        "view"@ != "dependencies"@,
        "view"@ != "trail"@,
        "view"@ != "subject_source"@,
        "view"@ != "resolved"@,
        "subject"@ != "subject_file_path"@,
        "subject"@ != "caller_details"@,
        "subject"@ != "callee_details"@,
        "subject"@ != "file_peers"@,
        "subject"@ != "importers"@,
        "subject"@ != "dependencies"@,
        "subject"@ != "trail"@,
        "subject"@ != "subject_source"@,
        "subject"@ != "resolved"@,
        "subject_file_path"@ != "caller_details"@,
        "subject_file_path"@ != "callee_details"@,
        "subject_file_path"@ != "file_peers"@,
        "subject_file_path"@ != "importers"@,
        "subject_file_path"@ != "dependencies"@,
        "subject_file_path"@ != "trail"@,
        "subject_file_path"@ != "subject_source"@,
        "subject_file_path"@ != "resolved"@,
        "caller_details"@ != "callee_details"@,
        "caller_details"@ != "file_peers"@,
        "caller_details"@ != "importers"@,
        "caller_details"@ != "dependencies"@,
        "caller_details"@ != "trail"@,
        "caller_details"@ != "subject_source"@,
        "caller_details"@ != "resolved"@,
        "callee_details"@ != "file_peers"@,
        "callee_details"@ != "importers"@,
        "callee_details"@ != "dependencies"@,
        "callee_details"@ != "trail"@,
        "callee_details"@ != "subject_source"@,
        "callee_details"@ != "resolved"@,
        "file_peers"@ != "importers"@,
        "file_peers"@ != "dependencies"@,
        "file_peers"@ != "trail"@,
        "file_peers"@ != "subject_source"@,
        "file_peers"@ != "resolved"@,
        "importers"@ != "dependencies"@,
        "importers"@ != "trail"@,
        "importers"@ != "subject_source"@,
        "importers"@ != "resolved"@,
        "dependencies"@ != "trail"@,
        "dependencies"@ != "subject_source"@,
        "dependencies"@ != "resolved"@,
        "trail"@ != "subject_source"@,
        "trail"@ != "resolved"@,
        "subject_source"@ != "resolved"@,
{
    reveal_strlit("symbol");
    reveal_strlit("view");
    reveal_strlit("subject");
    reveal_strlit("subject_file_path");
    reveal_strlit("caller_details");
    reveal_strlit("callee_details");
    reveal_strlit("file_peers");
    reveal_strlit("importers");
    reveal_strlit("dependencies");
    reveal_strlit("trail");
    reveal_strlit("subject_source");
    reveal_strlit("resolved");
    assert("symbol"@.len() != "view"@.len());
    assert("symbol"@.len() != "subject"@.len());
    assert("symbol"@.len() != "subject_file_path"@.len());
    assert("symbol"@.len() != "caller_details"@.len());
    assert("symbol"@.len() != "callee_details"@.len());
    assert("symbol"@.len() != "file_peers"@.len());
    assert("symbol"@.len() != "importers"@.len());
    assert("symbol"@.len() != "dependencies"@.len());
    assert("symbol"@.len() != "trail"@.len());
    assert("symbol"@.len() != "subject_source"@.len());
    assert("symbol"@.len() != "resolved"@.len());
    assert("view"@.len() != "subject"@.len());
    assert("view"@.len() != "subject_file_path"@.len());
    assert("view"@.len() != "caller_details"@.len());
    assert("view"@.len() != "callee_details"@.len());
    assert("view"@.len() != "file_peers"@.len());
    assert("view"@.len() != "importers"@.len());
    assert("view"@.len() != "dependencies"@.len());
    assert("view"@.len() != "trail"@.len());
    assert("view"@.len() != "subject_source"@.len());
    assert("view"@.len() != "resolved"@.len());
    assert("subject"@.len() != "subject_file_path"@.len());
    assert("subject"@.len() != "caller_details"@.len());
    assert("subject"@.len() != "callee_details"@.len());
    assert("subject"@.len() != "file_peers"@.len());
    assert("subject"@.len() != "importers"@.len());
    assert("subject"@.len() != "dependencies"@.len());
    assert("subject"@.len() != "trail"@.len());
    assert("subject"@.len() != "subject_source"@.len());
    assert("subject"@.len() != "resolved"@.len());
    assert("subject_file_path"@.len() != "caller_details"@.len());
    assert("subject_file_path"@.len() != "callee_details"@.len());
    assert("subject_file_path"@.len() != "file_peers"@.len());
    assert("subject_file_path"@.len() != "importers"@.len());
    assert("subject_file_path"@.len() != "dependencies"@.len());
    assert("subject_file_path"@.len() != "trail"@.len());
    assert("subject_file_path"@.len() != "subject_source"@.len());
    assert("subject_file_path"@.len() != "resolved"@.len());
    assert("caller_details"@[5] != "callee_details"@[5]);
    assert("caller_details"@.len() != "file_peers"@.len());
    assert("caller_details"@.len() != "importers"@.len());
    assert("caller_details"@.len() != "dependencies"@.len());
    assert("caller_details"@.len() != "trail"@.len());
    assert("caller_details"@[0] != "subject_source"@[0]);
    assert("caller_details"@.len() != "resolved"@.len());
    assert("callee_details"@.len() != "file_peers"@.len());
    assert("callee_details"@.len() != "importers"@.len());
    assert("callee_details"@.len() != "dependencies"@.len());
    assert("callee_details"@.len() != "trail"@.len());
    assert("callee_details"@[0] != "subject_source"@[0]);
    assert("callee_details"@.len() != "resolved"@.len());
    assert("file_peers"@.len() != "importers"@.len());
    assert("file_peers"@.len() != "dependencies"@.len());
    assert("file_peers"@.len() != "trail"@.len());
    assert("file_peers"@.len() != "subject_source"@.len());
    assert("file_peers"@.len() != "resolved"@.len());
    assert("importers"@.len() != "dependencies"@.len());
    assert("importers"@.len() != "trail"@.len());
    assert("importers"@.len() != "subject_source"@.len());
    assert("importers"@.len() != "resolved"@.len());
    assert("dependencies"@.len() != "trail"@.len());
    assert("dependencies"@.len() != "subject_source"@.len());
    assert("dependencies"@.len() != "resolved"@.len());
    assert("trail"@.len() != "subject_source"@.len());
    assert("trail"@.len() != "resolved"@.len());
    assert("subject_source"@.len() != "resolved"@.len());
}

/// The response to a context request tells everything that is known around the symbol,
/// each under its own name.
pub proof fn law_context_is_told(
    qname: Seq<char>,
    view: ContextView,
    include_code: bool,
    source: Option<Seq<char>>,
    resolved: Option<JsonView>,
)
    ensures
        ({
            let body = JsonView::Object(
                context_fields(qname, view, include_code, source, resolved),
            );
            &&& body.text_field("symbol"@) == Some(qname)
            &&& body.field("subject"@) == Some(view.subject@)
            &&& body.field("subject_file_path"@) == Some(view.subject_file_path@)
            &&& body.field("caller_details"@) == Some(callers_view(view.caller_details@))
            &&& body.field("callee_details"@) == Some(callees_view(view.callee_details@))
            &&& body.field("file_peers"@) == Some(view.file_peers@)
            &&& body.field("importers"@) == Some(view.importers@)
            &&& body.field("dependencies"@) == Some(view.dependencies@)
            &&& body.field("subject_source"@) == listed_source(
                view.subject_source,
                include_code,
                source,
            )
            &&& body.field("resolved"@) == resolved
            &&& body.field("trail"@) matches Some(trail) && trail.field("calls"@) is Some == (
            view.callee_details@.len() > 0) && trail.field("called_by"@) is Some == (
            view.caller_details@.len() > 0)
        }),
{
    lemma_context_names_differ();
    reveal_strlit("full_source");
    reveal_strlit("calls");
    reveal_strlit("called_by");
    assert("full_source"@.len() != "calls"@.len());
    assert("full_source"@.len() != "called_by"@.len());
    assert("calls"@.len() != "called_by"@.len());
}

/// A context query is resumed with its own arguments, as a context query.
pub proof fn law_resumed_query_keeps_its_arguments(args: JsonView, name: Seq<char>)
    requires
        args is Object,
    ensures
        resumed_args(args).text_field("view"@) == Some("context"@),
        name != "view"@ ==> resumed_args(args).field(name) == args.field(name),
{
}

/// A symbol is only said to have been resolved by its selector where it was resolved at once
/// and is stored; its file is analysed first, unless that has just been done.
pub proof fn law_found_symbols_say_how(
    phase: ContextPhase,
    event: ContextEvent,
    qname: Seq<char>,
    guidance: Seq<char>,
    max_candidates: nat,
    next: ContextPhase,
    action: ContextAction,
)
    requires
        answers(phase, event),
        follows(phase, event, qname, guidance, max_candidates, next, action),
    ensures
        action matches ContextAction::Found { focus_first, resolved_by_selector, .. } ==> (
        resolved_by_selector <==> phase is Fetching) && (focus_first <==> phase is Fetching
            || phase is Naming),
{
}

/// Candidates by name are told as the symbols that they stand for, in order, as many as are
/// listed.
pub proof fn law_name_candidates_are_told(
    candidates: Seq<ScoredCandidate>,
    symbols: Seq<SymbolFacts>,
    places: Seq<int>,
    max_candidates: nat,
)
    requires
        are_name_candidates(candidates, symbols, places, max_candidates),
    ensures
        candidates.len() <= max_candidates,
        candidates.len() <= places.len(),
        candidates.len() == max_candidates || candidates.len() == places.len(),
        forall|i: int|
            0 <= i < candidates.len() ==> (#[trigger] candidates[i]).symbol_id@
                == symbols[places[i]].symbol_id@ && candidates[i].qualified_name@
                == symbols[places[i]].qualified_name@ && candidates[i].file_path@
                == symbols[places[i]].file_path@ && candidates[i].line == shown_line(
                symbols[places[i]].start_line,
            ) && candidates[i].kind@ == symbols[places[i]].kind_name@ && candidates[i].language@
                == symbols[places[i]].language@ && candidates[i].symbol_ref.qualified_name@
                == symbols[places[i]].qualified_name@ && string_view(
                candidates[i].symbol_ref.file_path,
            ) == Some(symbols[places[i]].file_path@),
{
}

/// A name is only unknown where no symbol has it, and only ambiguous where several do or it
/// resolved to several; a failed resolution is told as it is.
pub proof fn law_answers_fit_what_was_found(
    phase: ContextPhase,
    event: ContextEvent,
    qname: Seq<char>,
    guidance: Seq<char>,
    max_candidates: nat,
    next: ContextPhase,
    action: ContextAction,
)
    requires
        answers(phase, event),
        follows(phase, event, qname, guidance, max_candidates, next, action),
    ensures
        action is NotFound ==> (event matches ContextEvent::Named(symbols) && symbols@.len() == 0),
        phase is NamingAgain ==> (event matches ContextEvent::Named(symbols) ==> (symbols@.len()
            == 0 ==> action is NotFound) && (symbols@.len() > 1 ==> action is Ambiguous)),
        action matches ContextAction::Ambiguous(candidates) ==> match event {
            ContextEvent::Named(symbols) => symbols@.len() > 1,
            ContextEvent::Resolved(SymbolResolution::Ambiguous { candidates: found, .. }) => found
                == candidates,
            _ => false,
        },
        action matches ContextAction::Fail(message) ==> (event matches ContextEvent::ResolveFailed(
            told,
        ) && told == message),
        action matches ContextAction::NotFound(message) ==> crate::text::holds_text(
            message@,
            qname,
        ) && guidance.is_suffix_of(message@),
{
    if let ContextAction::NotFound(message) = action {
        let rest =
            "' not found by qualified name or simple name. Try 'search' first to discover the correct qualified_name for this symbol."@
            + guidance;
        crate::text::law_text_holds_its_parts("Symbol '"@, qname, rest);
        assert(message@ =~= "Symbol '"@ + qname + rest);
        assert(message@.subrange(message@.len() - guidance.len(), message@.len() as int)
            =~= guidance);
    }
}

/// Every action is answered by what it asks for: a resolution by what it came to or that it
/// failed, and every other by its result.
pub proof fn law_every_action_can_be_answered(
    resolution: SymbolResolution,
    error: String,
    stored: bool,
    symbols: Vec<SymbolFacts>,
    id: SymbolId,
)
    ensures
        answers(ContextPhase::Resolving, ContextEvent::Resolved(resolution)),
        answers(ContextPhase::Resolving, ContextEvent::ResolveFailed(error)),
        answers(ContextPhase::ResolvingAgain, ContextEvent::Resolved(resolution)),
        answers(ContextPhase::ResolvingAgain, ContextEvent::ResolveFailed(error)),
        answers(ContextPhase::Fetching(id), ContextEvent::Fetched(stored)),
        answers(ContextPhase::Naming, ContextEvent::Named(symbols)),
        answers(ContextPhase::NamingAgain, ContextEvent::Named(symbols)),
        !answers(ContextPhase::Settled, ContextEvent::Named(symbols)),
        !answers(ContextPhase::Settled, ContextEvent::Resolved(resolution)),
{
}

/// A candidate by name has no score, and its selector names it as a whole.
pub proof fn law_name_candidates_have_whole_selectors(
    candidate: ScoredCandidate,
    symbol: SymbolFacts,
)
    requires
        is_name_candidate(candidate, symbol),
    ensures
        candidate.score == 0,
        candidate.symbol_ref.line == Some(candidate.line),
        string_view(candidate.symbol_ref.kind) == Some(candidate.kind@),
        string_view(candidate.symbol_ref.language) == Some(candidate.language@),
        string_view(candidate.symbol_ref.file_path) == Some(candidate.file_path@),
        candidate.symbol_ref.qualified_name@ == candidate.qualified_name@,
{
}

} // verus!
