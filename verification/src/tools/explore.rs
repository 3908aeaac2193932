//! Exploring a symbol: what a request asks for, what a name stands for in a scope,
//! and what is answered when it is ambiguous, unknown or found.

use vstd::prelude::*;
use vstd::string::*;

use crate::json::{items_view, json_view, no_fields, signed_view, Json, JsonObject, JsonView};
use crate::protocol::{text_array, texts_to_json};
use crate::text::{same_text, string_view, strings_view, trim, trimmed};
use crate::tools::analysis_envelope::{AnalysisEnvelope, GapRecord};
use crate::tools::args::{
    capped, flag_arg, flag_of, number_arg, number_of, to_count, trimmed_arg, trimmed_of,
};
use crate::tools::call_graph::places_view;
use crate::tools::calls::{checked_symbol, symbol_refusal};
use crate::tools::symbols::{
    line_number, selector_fields, selector_to_json, shown_line, ResolvedSymbol, ScoredCandidate,
    SymbolFacts, SymbolInput, SymbolResolution, SymbolSelector, MAX_AMBIGUOUS_CANDIDATES,
};
use crate::tools::unresolved::in_range;

verus! {

/// How much source a dossier holds at most.
pub const MAX_SOURCE_BYTES: usize = 65536;

/// How many files of a scope are looked at for an unknown symbol.
pub const MAX_SCOPE_FILES: usize = 24;

/// The score of a candidate that was found in the scope of a request.
pub const SCOPE_SCORE: i64 = 9_000;

/// After how long a request for an unknown symbol should be repeated.
pub const EXPLORE_RETRY_MS: u64 = 2000;

/// How much source a dossier shows.
#[derive(Clone, Copy, Debug, PartialEq, Eq, Structural)]
pub enum SourceMode {
    Full,
    Nothing,
    Excerpt,
}

/// How much source a request asks for: an excerpt, unless it says otherwise.
pub open spec fn source_mode_of(args: JsonView) -> SourceMode {
    match args.text_field("source_mode"@) {
        Some(m) => if m == "full"@ {
            SourceMode::Full
        } else if m == "none"@ {
            SourceMode::Nothing
        } else {
            SourceMode::Excerpt
        },
        None => SourceMode::Excerpt,
    }
}

/// How much source a request asks for.
pub fn parse_source_mode(args: &Json) -> (mode: SourceMode)
    ensures
        mode == source_mode_of(args@),
{
    match args.get_str("source_mode") {
        Some(m) => if same_text(m, "full") {
            SourceMode::Full
        } else if same_text(m, "none") {
            SourceMode::Nothing
        } else {
            SourceMode::Excerpt
        },
        None => SourceMode::Excerpt,
    }
}

/// What an explore request asks for.
pub struct ExplorePlan {
    pub input: SymbolInput,
    pub source_mode: SourceMode,
    pub source_lines: u32,
    pub evidence_limit: usize,
    pub relation_limit: usize,
    pub peer_limit: usize,
    pub include_file_context: bool,
    pub include_recommendations: bool,
    /// The part of the project to look in.
    pub scope: Option<String>,
    /// Whether the file that the request names is analysed before the symbol is
    /// looked up.
    pub focus_first: bool,
}

/// Whether a symbol argument names a file.
pub open spec fn names_file(input: SymbolInput) -> bool {
    input matches SymbolInput::Selector(selector) && (selector.file_path matches Some(path)
        && trimmed(path@).len() > 0)
}

fn check_file_hint(input: &SymbolInput) -> (named: bool)
    ensures
        named == names_file(*input),
{
    match input {
        SymbolInput::Selector(selector) => match &selector.file_path {
            Some(path) => !trim(path.as_str()).as_str().is_empty(),
            None => false,
        },
        SymbolInput::Name(_) => false,
    }
}

/// Reads an explore request.
pub fn plan_explore(
    args: &Json,
    input: Result<SymbolInput, String>,
    max_name_length: usize,
) -> (plan: Result<ExplorePlan, String>)
    ensures
        match plan {
            Ok(p) => input == Ok::<SymbolInput, String>(p.input) && symbol_refusal(
                input,
                max_name_length as nat,
            ) is None && p.source_mode == source_mode_of(args@) && p.source_lines == number_of(
                args@,
                "source_lines"@,
                40,
            ) as u32 && p.evidence_limit == capped(number_of(args@, "evidence_limit"@, 5))
                && p.relation_limit == capped(number_of(args@, "relation_limit"@, 12))
                && p.peer_limit == capped(number_of(args@, "peer_limit"@, 12))
                && p.include_file_context == flag_of(args@, "include_file_context"@, true)
                && p.include_recommendations == flag_of(args@, "include_recommendations"@, true)
                && string_view(p.scope) == trimmed_of(args@, "scope"@) && p.focus_first == (
            p.scope is None && names_file(p.input)),
            Err(e) => symbol_refusal(input, max_name_length as nat) == Some(e@),
        },
{
    let symbol = match checked_symbol(input, max_name_length) {
        Ok(i) => i,
        Err(e) => return Err(e),
    };
    let scope = trimmed_arg(args, "scope");
    let focus_first = scope.is_none() && check_file_hint(&symbol);
    let lines: u64 = number_arg(args, "source_lines", 40);
    Ok(
        ExplorePlan {
            input: symbol,
            source_mode: parse_source_mode(args),
            source_lines: #[verifier::truncate]
            (lines as u32),
            evidence_limit: to_count(number_arg(args, "evidence_limit", 5)),
            relation_limit: to_count(number_arg(args, "relation_limit", 12)),
            peer_limit: to_count(number_arg(args, "peer_limit", 12)),
            include_file_context: flag_arg(args, "include_file_context", true),
            include_recommendations: flag_arg(args, "include_recommendations", true),
            scope,
            focus_first,
        },
    )
}

/// Whether a symbol has exactly the name that is asked for.
pub open spec fn is_named(symbol: SymbolFacts, qname: Seq<char>) -> bool {
    symbol.name@ == qname || symbol.qualified_name@ == qname
}

/// The places of the symbols with exactly the name that is asked for.
pub open spec fn named_places(hits: Seq<SymbolFacts>, qname: Seq<char>, n: nat) -> Seq<int>
    decreases n,
{
    if n == 0 {
        Seq::empty()
    } else {
        let before = named_places(hits, qname, (n - 1) as nat);
        if is_named(hits[n - 1], qname) {
            before.push(n - 1)
        } else {
            before
        }
    }
}

/// The places of the symbols that a name stands for: those that have it, or all,
/// where none has it.
pub open spec fn meant_places(hits: Seq<SymbolFacts>, qname: Seq<char>) -> Seq<int> {
    let named = named_places(hits, qname, hits.len());
    if named.len() > 0 {
        named
    } else {
        Seq::new(hits.len(), |i: int| i)
    }
}

fn find_meant(hits: &Vec<SymbolFacts>, qname: &str) -> (places: Vec<usize>)
    ensures
        places_view(places@) == meant_places(hits@, qname@),
        in_range(places@, hits@.len()),
{
    let mut places: Vec<usize> = Vec::new();
    let mut i: usize = 0;
    proof {
        assert(places_view(places@) =~= Seq::empty());
    }
    while i < hits.len()
        invariant
            i <= hits@.len(),
            in_range(places@, hits@.len()),
            places_view(places@) == named_places(hits@, qname@, i as nat),
        decreases hits@.len() - i,
    {
        if same_text(hits[i].name.as_str(), qname) || same_text(
            hits[i].qualified_name.as_str(),
            qname,
        ) {
            let ghost before = places@;
            places.push(i);
            proof {
                assert(places_view(places@) =~= places_view(before).push(i as int));
            }
        }
        i = i + 1;
    }
    if places.len() == 0 {
        let mut k: usize = 0;
        while k < hits.len()
            invariant
                k <= hits@.len(),
                places@.len() == k,
                in_range(places@, hits@.len()),
                forall|j: int| 0 <= j < k ==> (#[trigger] places@[j]) == j,
            decreases hits@.len() - k,
        {
            places.push(k);
            k = k + 1;
        }
        proof {
            assert(places_view(places@) =~= Seq::new(hits@.len(), |i: int| i));
        }
    }
    places
}

/// Whether a candidate stands for a symbol that was found in a scope.
pub open spec fn is_scope_candidate(
    candidate: ScoredCandidate,
    symbol: SymbolFacts,
    scope: Seq<char>,
) -> bool {
    &&& candidate.qualified_name@ == symbol.qualified_name@
    &&& candidate.file_path@ == symbol.file_path@
    &&& candidate.line == shown_line(symbol.start_line)
    &&& candidate.kind@ == symbol.kind_name@
    &&& candidate.language@ == symbol.language@
    &&& candidate.score == SCOPE_SCORE
    &&& strings_view(candidate.reasons@) == seq!["scope:"@ + scope]
    &&& candidate.symbol_ref.qualified_name@ == symbol.qualified_name@
    &&& string_view(candidate.symbol_ref.file_path) == Some(symbol.file_path@)
    &&& candidate.symbol_ref.line == Some(shown_line(symbol.start_line))
    &&& string_view(candidate.symbol_ref.kind) == Some(symbol.kind_name@)
    &&& string_view(candidate.symbol_ref.language) == Some(symbol.language@)
    &&& candidate.symbol_id@ == symbol.symbol_id@
}

/// Whether a resolution is the symbol itself.
pub open spec fn is_resolved_as(resolved: ResolvedSymbol, symbol: SymbolFacts) -> bool {
    &&& resolved.qualified_name@ == symbol.qualified_name@
    &&& resolved.file_path@ == symbol.file_path@
    &&& resolved.line == shown_line(symbol.start_line)
    &&& resolved.kind@ == symbol.kind_name@
    &&& resolved.language@ == symbol.language@
}

/// Whether a resolution is what a name stands for in a scope.
pub open spec fn resolves_in_scope(
    resolution: SymbolResolution,
    hits: Seq<SymbolFacts>,
    qname: Seq<char>,
    scope: Seq<char>,
) -> bool {
    let meant = meant_places(hits, qname);
    if meant.len() == 0 {
        resolution matches SymbolResolution::NotFound { qname: name, suggestions } && name@ == qname
            && suggestions@.len() == 0
    } else if meant.len() == 1 {
        resolution matches SymbolResolution::Single { symbol_id, resolved } && symbol_id@
            == hits[meant[0]].symbol_id@ && is_resolved_as(resolved, hits[meant[0]])
    } else {
        resolution matches SymbolResolution::Ambiguous { candidates, score_gap } && score_gap == 0
            && candidates@.len() == (if meant.len() < MAX_AMBIGUOUS_CANDIDATES {
            meant.len()
        } else {
            MAX_AMBIGUOUS_CANDIDATES as nat
        }) && forall|i: int|
            0 <= i < candidates@.len() ==> is_scope_candidate(
                #[trigger] candidates@[i],
                hits[meant[i]],
                scope,
            )
    }
}

fn scope_candidate(symbol: &SymbolFacts, scope: &str) -> (candidate: ScoredCandidate)
    ensures
        is_scope_candidate(candidate, *symbol, scope@),
{
    let line: u32 = line_number(symbol.start_line);
    let mut reason = "scope:".to_owned();
    reason.append(scope);
    let mut reasons: Vec<String> = Vec::new();
    reasons.push(reason);
    proof {
        assert(strings_view(reasons@) =~= seq!["scope:"@ + scope@]);
    }
    ScoredCandidate {
        qualified_name: symbol.qualified_name.clone(),
        file_path: symbol.file_path.clone(),
        line,
        kind: symbol.kind_name.clone(),
        language: symbol.language.clone(),
        score: SCOPE_SCORE,
        reasons,
        symbol_ref: SymbolSelector {
            qualified_name: symbol.qualified_name.clone(),
            file_path: Some(symbol.file_path.clone()),
            line: Some(line),
            kind: Some(symbol.kind_name.clone()),
            language: Some(symbol.language.clone()),
        },
        symbol_id: symbol.symbol_id,
    }
}

/// What a name stands for in a scope, where `hits` are the symbols that a search of
/// the scope found.
pub fn scoped_explore_resolution(hits: &Vec<SymbolFacts>, qname: &str, scope: &str) -> (resolution:
    SymbolResolution)
    ensures
        resolves_in_scope(resolution, hits@, qname@, scope@),
{
    let places = find_meant(hits, qname);
    let ghost meant = meant_places(hits@, qname@);
    if places.len() == 0 {
        return SymbolResolution::NotFound { qname: qname.to_owned(), suggestions: Vec::new() };
    }
    if places.len() == 1 {
        let symbol = &hits[places[0]];
        proof {
            assert(meant[0] == places@[0]);
        }
        return SymbolResolution::Single {
            symbol_id: symbol.symbol_id,
            resolved: ResolvedSymbol {
                qualified_name: symbol.qualified_name.clone(),
                file_path: symbol.file_path.clone(),
                line: line_number(symbol.start_line),
                kind: symbol.kind_name.clone(),
                language: symbol.language.clone(),
            },
        };
    }
    let mut candidates: Vec<ScoredCandidate> = Vec::new();
    let mut i: usize = 0;
    while i < places.len() && i < MAX_AMBIGUOUS_CANDIDATES
        invariant
            i <= places@.len(),
            i <= MAX_AMBIGUOUS_CANDIDATES,
            in_range(places@, hits@.len()),
            meant == places_view(places@),
            candidates@.len() == i,
            forall|j: int|
                0 <= j < i ==> is_scope_candidate(
                    #[trigger] candidates@[j],
                    hits@[meant[j]],
                    scope@,
                ),
        decreases places@.len() - i,
    {
        candidates.push(scope_candidate(&hits[places[i]], scope));
        i = i + 1;
    }
    SymbolResolution::Ambiguous { candidates, score_gap: 0 }
}

/// A candidate as a request is offered it.
pub open spec fn offered_view(candidate: ScoredCandidate) -> JsonView {
    JsonView::Object(
        no_fields().insert("qualified_name"@, JsonView::Str(candidate.qualified_name@)).insert(
            "file_path"@,
            JsonView::Str(candidate.file_path@),
        ).insert("line"@, JsonView::Unsigned(candidate.line as u64)).insert(
            "kind"@,
            JsonView::Str(candidate.kind@),
        ).insert("language"@, JsonView::Str(candidate.language@)).insert(
            "score"@,
            signed_view(candidate.score),
        ).insert("reasons"@, text_array(strings_view(candidate.reasons@))).insert(
            "symbol_ref"@,
            JsonView::Object(selector_fields(candidate.symbol_ref)),
        ),
    )
}

/// The response to an explore request for an ambiguous name.
pub open spec fn ambiguous_fields(
    qname: Seq<char>,
    candidates: Seq<ScoredCandidate>,
    score_gap: i64,
) -> Map<Seq<char>, JsonView> {
    no_fields().insert("symbol"@, JsonView::Str(qname)).insert(
        "ambiguous"@,
        JsonView::Bool(true),
    ).insert("score_gap"@, signed_view(score_gap)).insert(
        "candidates"@,
        JsonView::Array(Seq::new(candidates.len(), |i: int| offered_view(candidates[i]))),
    )
}

/// A candidate as a request is offered it.
pub fn offered_json(candidate: &ScoredCandidate) -> (json: Json)
    ensures
        json@ == offered_view(*candidate),
{
    let mut object = JsonObject::new();
    object.put("qualified_name", Json::text(candidate.qualified_name.as_str()));
    object.put("file_path", Json::text(candidate.file_path.as_str()));
    object.put("line", Json::Unsigned(candidate.line as u64));
    object.put("kind", Json::text(candidate.kind.as_str()));
    object.put("language", Json::text(candidate.language.as_str()));
    object.put("score", Json::Signed(candidate.score));
    object.put("reasons", texts_to_json(&candidate.reasons));
    object.put("symbol_ref", selector_to_json(&candidate.symbol_ref));
    Json::Object(object)
}

/// The response to an explore request for an ambiguous name.
pub fn ambiguous_body(qname: &str, candidates: &Vec<ScoredCandidate>, score_gap: i64) -> (body: Json)
    ensures
        body@ == JsonView::Object(ambiguous_fields(qname@, candidates@, score_gap)),
{
    let mut items: Vec<Json> = Vec::new();
    let mut i: usize = 0;
    while i < candidates.len()
        invariant
            i <= candidates@.len(),
            items@.len() == i,
            forall|j: int| 0 <= j < i ==> (#[trigger] items@[j])@ == offered_view(candidates@[j]),
        decreases candidates@.len() - i,
    {
        items.push(offered_json(&candidates[i]));
        i = i + 1;
    }
    proof {
        assert(items_view(items@) =~= Seq::new(
            candidates@.len(),
            |i: int| offered_view(candidates@[i]),
        ));
    }
    let mut object = JsonObject::new();
    object.put("symbol", Json::text(qname));
    object.put("ambiguous", Json::Bool(true));
    object.put("score_gap", Json::Signed(score_gap));
    object.put("candidates", Json::Array(items));
    Json::Object(object)
}

/// The response to an explore request for an unknown symbol.
pub open spec fn unknown_fields(
    qname: Seq<char>,
    suggestions: Seq<Seq<char>>,
    scope: Option<Seq<char>>,
    candidate_files: Seq<Seq<char>>,
) -> Map<Seq<char>, JsonView> {
    let base = no_fields().insert("symbol"@, JsonView::Str(qname)).insert(
        "status"@,
        JsonView::Str("unresolved"@),
    ).insert(
        "message"@,
        JsonView::Str(
            "The symbol is not available in the current local focus closure yet. Background scoped analysis has been started; retry this explore request after the suggested delay, or pass a SymbolSelector with file_path/scope to constrain the local region."@,
        ),
    );
    let suggested = if suggestions.len() > 0 {
        base.insert("suggestions"@, text_array(suggestions))
    } else {
        base
    };
    match scope {
        Some(s) => suggested.insert("scope"@, JsonView::Str(s)),
        None => if candidate_files.len() > 0 {
            suggested.insert("candidate_files"@, text_array(candidate_files))
        } else {
            suggested
        },
    }
}

/// The response to an explore request for an unknown symbol. Files in which it may
/// be are named where the request has no scope.
pub fn unknown_body(
    qname: &str,
    suggestions: &Vec<String>,
    scope: &Option<String>,
    candidate_files: &Vec<String>,
) -> (body: Json)
    ensures
        body@ == JsonView::Object(
            unknown_fields(
                qname@,
                strings_view(suggestions@),
                string_view(*scope),
                strings_view(candidate_files@),
            ),
        ),
{
    let mut object = JsonObject::new();
    object.put("symbol", Json::text(qname));
    object.put("status", Json::text("unresolved"));
    object.put(
        "message",
        Json::text(
            "The symbol is not available in the current local focus closure yet. Background scoped analysis has been started; retry this explore request after the suggested delay, or pass a SymbolSelector with file_path/scope to constrain the local region.",
        ),
    );
    if suggestions.len() > 0 {
        object.put("suggestions", texts_to_json(suggestions));
    }
    match scope {
        Some(s) => {
            object.put("scope", Json::text(s.as_str()));
        },
        None => {
            if candidate_files.len() > 0 {
                object.put("candidate_files", texts_to_json(candidate_files));
            }
        },
    }
    Json::Object(object)
}

/// What is said of the analysis of an unknown symbol.
pub open spec fn unknown_summary(jobs_started: bool) -> Seq<char> {
    if jobs_started {
        "explore returned a bounded unresolved result; background scoped analysis is preparing local symbol facts"@
    } else {
        "explore returned a bounded unresolved result; retry after focus bootstrap has warmed more inventory"@
    }
}

/// Fills in the envelope of a response for an unknown symbol. Where background work
/// has been started the request may be repeated; where there is nothing to wait
/// for, the response is final and names what is missing.
pub fn unknown_envelope<F>(
    envelope: AnalysisEnvelope<F>,
    qname: &str,
    jobs_started: bool,
) -> (filled: AnalysisEnvelope<F>)
    ensures
        filled.query_id == envelope.query_id,
        filled.tool_name == envelope.tool_name,
        filled.tool_args == envelope.tool_args,
        filled.root_warnings == envelope.root_warnings,
        filled.lazy_warnings == envelope.lazy_warnings,
        filled.is_error_override == Some(false),
        filled.coverage_counts == envelope.coverage_counts,
        filled.focus_result == envelope.focus_result,
        filled.capability_stats == envelope.capability_stats,
        filled.project_stats == envelope.project_stats,
        string_view(filled.analysis_scope) == Some("local"@),
        string_view(filled.analysis_summary) == Some(unknown_summary(jobs_started)),
        filled.analysis_basis matches Some(basis) && strings_view(basis@) == seq![
            "manifest"@,
            "structural"@,
        ],
        jobs_started ==> filled.analysis_retry_after_ms == Some(EXPLORE_RETRY_MS)
            && filled.gap_records == envelope.gap_records,
        !jobs_started ==> filled.analysis_retry_after_ms == envelope.analysis_retry_after_ms && (
        filled.gap_records matches Some(gaps) && gaps@.len() == 1 && gaps@[0].scope@ == qname@
            && gaps@[0].reason@ == "symbol_not_materialized"@ && gaps@[0].detail@
            == unknown_summary(false)),
{
    let mut basis: Vec<String> = Vec::new();
    basis.push("manifest".to_owned());
    basis.push("structural".to_owned());
    proof {
        assert(strings_view(basis@) =~= seq!["manifest"@, "structural"@]);
    }
    let prepared = envelope.with_is_error(false).with_analysis_scope(
        "local".to_owned(),
    ).with_analysis_basis(basis);
    if jobs_started {
        prepared.with_analysis_summary(
            "explore returned a bounded unresolved result; background scoped analysis is preparing local symbol facts".to_owned(),
        ).with_analysis_retry_after_ms(EXPLORE_RETRY_MS)
    } else {
        let summary =
            "explore returned a bounded unresolved result; retry after focus bootstrap has warmed more inventory";
        let mut gaps: Vec<GapRecord> = Vec::new();
        gaps.push(
            GapRecord {
                scope: qname.to_owned(),
                reason: "symbol_not_materialized".to_owned(),
                detail: summary.to_owned(),
            },
        );
        prepared.with_analysis_summary(summary.to_owned()).with_gap_records(gaps)
    }
}

/// What can go wrong once a symbol is known.
pub enum ExploreFailure {
    /// The symbol is not stored.
    NotStored,
    /// The symbol could not be looked up.
    LookupFailed(String),
    /// The symbol was gone when its file had been analysed.
    Disappeared,
    /// The symbol could not be looked up when its file had been analysed.
    SecondLookupFailed(String),
    /// There is no graph.
    NoGraph,
    /// The dossier could not be put together.
    DossierFailed(String),
}

/// What a request is told of a failure.
pub open spec fn failure_message(
    failure: ExploreFailure,
    qname: Seq<char>,
    guidance: Seq<char>,
) -> Seq<char> {
    match failure {
        ExploreFailure::NotStored => "Symbol not found in store: "@ + qname + guidance,
        ExploreFailure::LookupFailed(e) => "Lookup error: "@ + e@ + guidance,
        ExploreFailure::Disappeared => "Symbol disappeared after focus preparation: "@ + qname,
        ExploreFailure::SecondLookupFailed(e) => "Lookup after focus preparation failed: "@ + e@,
        ExploreFailure::NoGraph => "Graph not initialized"@,
        ExploreFailure::DossierFailed(e) => "Failed to build dossier: "@ + e@,
    }
}

/// What a request is told of a failure. The guidance is what is said about symbols
/// that have not been indexed.
pub fn failure_text(failure: &ExploreFailure, qname: &str, guidance: &str) -> (text: String)
    ensures
        text@ == failure_message(*failure, qname@, guidance@),
{
    match failure {
        ExploreFailure::NotStored => {
            let mut text = "Symbol not found in store: ".to_owned();
            text.append(qname);
            text.append(guidance);
            text
        },
        ExploreFailure::LookupFailed(e) => {
            let mut text = "Lookup error: ".to_owned();
            text.append(e.as_str());
            text.append(guidance);
            text
        },
        ExploreFailure::Disappeared => {
            let mut text = "Symbol disappeared after focus preparation: ".to_owned();
            text.append(qname);
            text
        },
        ExploreFailure::SecondLookupFailed(e) => {
            let mut text = "Lookup after focus preparation failed: ".to_owned();
            text.append(e.as_str());
            text
        },
        ExploreFailure::NoGraph => "Graph not initialized".to_owned(),
        ExploreFailure::DossierFailed(e) => {
            let mut text = "Failed to build dossier: ".to_owned();
            text.append(e.as_str());
            text
        },
    }
}

/// The response to an explore request for a known symbol: its dossier without the
/// internal tier, and how the name was resolved.
pub open spec fn dossier_fields(
    dossier: Map<Seq<char>, JsonView>,
    resolved: Option<JsonView>,
) -> Map<Seq<char>, JsonView> {
    let public = dossier.remove("precisionTier"@);
    match resolved {
        Some(symbol) => public.insert(
            "resolution"@,
            JsonView::Object(
                no_fields().insert("policy"@, JsonView::Str("unique_or_candidates"@)).insert(
                    "resolved"@,
                    symbol,
                ),
            ),
        ),
        None => public,
    }
}

/// The response to an explore request for a known symbol.
pub fn dossier_body(dossier: JsonObject, resolved: Option<Json>) -> (body: Json)
    ensures
        body@ == JsonView::Object(dossier_fields(dossier@, json_view(resolved))),
{
    let mut object = dossier;
    object.remove("precisionTier");
    match resolved {
        Some(symbol) => {
            let mut resolution = JsonObject::new();
            resolution.put("policy", Json::text("unique_or_candidates"));
            resolution.put("resolved", symbol);
            object.put("resolution", Json::Object(resolution));
        },
        None => {},
    }
    Json::Object(object)
}

/// A dossier never shows the internal tier.
pub proof fn law_dossier_hides_the_tier(
    dossier: Map<Seq<char>, JsonView>,
    resolved: Option<JsonView>,
)
    ensures
        !dossier_fields(dossier, resolved).contains_key("precisionTier"@),
{
    reveal_strlit("precisionTier");
    reveal_strlit("resolution");
    assert("precisionTier"@[0] == 'p');
    assert("resolution"@[0] == 'r');
}

/// A symbol with exactly the name that is asked for is never passed over for one
/// that only matches.
pub proof fn law_exact_names_win(hits: Seq<SymbolFacts>, qname: Seq<char>, at: int)
    requires
        0 <= at < hits.len(),
        is_named(hits[at], qname),
    ensures
        forall|i: int|
            0 <= i < meant_places(hits, qname).len() ==> is_named(
                hits[#[trigger] meant_places(hits, qname)[i]],
                qname,
            ),
        meant_places(hits, qname).contains(at),
{
    lemma_named_places(hits, qname, hits.len());
    let named = named_places(hits, qname, hits.len());
    assert(named.contains(at));
    assert(named.len() > 0);
}

proof fn lemma_named_places(hits: Seq<SymbolFacts>, qname: Seq<char>, n: nat)
    requires
        n <= hits.len(),
    ensures
        forall|i: int|
            0 <= i < named_places(hits, qname, n).len() ==> is_named(
                hits[#[trigger] named_places(hits, qname, n)[i]],
                qname,
            ),
        forall|at: int|
            0 <= at < n && is_named(hits[at], qname) ==> #[trigger] named_places(
                hits,
                qname,
                n,
            ).contains(at),
    decreases n,
{
    if n > 0 {
        lemma_named_places(hits, qname, (n - 1) as nat);
        let before = named_places(hits, qname, (n - 1) as nat);
        let all = named_places(hits, qname, n);
        assert forall|at: int| 0 <= at < n && is_named(hits[at], qname) implies #[trigger] all.contains(
            at,
        ) by {
            if at < n - 1 {
                assert(before.contains(at));
                let k = choose|k: int| 0 <= k < before.len() && before[k] == at;
                assert(all[k] == at);
            } else {
                assert(all[before.len() as int] == at);
            }
        }
        assert forall|i: int| 0 <= i < all.len() implies is_named(
            hits[#[trigger] all[i]],
            qname,
        ) by {
            if i < before.len() {
                assert(all[i] == before[i]);
            }
        }
    }
}

proof fn lemma_named_places_rise(hits: Seq<SymbolFacts>, qname: Seq<char>, n: nat)
    requires
        n <= hits.len(),
    ensures
        ({
            let places = named_places(hits, qname, n);
            &&& forall|i: int| 0 <= i < places.len() ==> 0 <= #[trigger] places[i] < n
            &&& forall|i: int, j: int|
                0 <= i < j < places.len() ==> #[trigger] places[i] < #[trigger] places[j]
        }),
    decreases n,
{
    if n > 0 {
        lemma_named_places_rise(hits, qname, (n - 1) as nat);
        let before = named_places(hits, qname, (n - 1) as nat);
        let places = named_places(hits, qname, n);
        assert forall|i: int| 0 <= i < places.len() implies 0 <= #[trigger] places[i] < n by {
            if i < before.len() {
                assert(places[i] == before[i]);
            }
        }
        assert forall|i: int, j: int| 0 <= i < j < places.len() implies #[trigger] places[i]
            < #[trigger] places[j] by {
            assert(places[i] == before[i]);
            if j < before.len() {
                assert(places[j] == before[j]);
            }
        }
    }
}

/// The symbols that a name stands for are taken from what was found, each once and in
/// order; where none has exactly the name, all that was found is meant.
pub proof fn law_meant_symbols_keep_their_order(hits: Seq<SymbolFacts>, qname: Seq<char>)
    ensures
        ({
            let places = meant_places(hits, qname);
            &&& forall|i: int| 0 <= i < places.len() ==> 0 <= #[trigger] places[i] < hits.len()
            &&& forall|i: int, j: int|
                0 <= i < j < places.len() ==> #[trigger] places[i] < #[trigger] places[j]
            &&& (forall|at: int|
                0 <= at < hits.len() ==> (#[trigger] hits[at]).name@ != qname
                    && hits[at].qualified_name@ != qname) ==> places.len() == hits.len()
        }),
{
    lemma_named_places_rise(hits, qname, hits.len());
    lemma_named_places(hits, qname, hits.len());
    let named = named_places(hits, qname, hits.len());
    if named.len() > 0 {
        assert(is_named(hits[named[0]], qname));
    }
}

/// Where one symbol alone has exactly the name that is asked for, the name resolves to it,
/// whatever else was found.
pub proof fn law_only_symbol_of_its_name_is_found(
    resolution: SymbolResolution,
    hits: Seq<SymbolFacts>,
    qname: Seq<char>,
    scope: Seq<char>,
    at: int,
)
    requires
        resolves_in_scope(resolution, hits, qname, scope),
        0 <= at < hits.len(),
        hits[at].name@ == qname || hits[at].qualified_name@ == qname,
        forall|other: int|
            0 <= other < hits.len() && other != at ==> (#[trigger] hits[other]).name@ != qname
                && hits[other].qualified_name@ != qname,
    ensures
        resolution matches SymbolResolution::Single { symbol_id, resolved } && symbol_id@
            == hits[at].symbol_id@ && resolved.qualified_name@ == hits[at].qualified_name@
            && resolved.file_path@ == hits[at].file_path@ && resolved.kind@ == hits[at].kind_name@
            && resolved.language@ == hits[at].language@,
{
    law_exact_names_win(hits, qname, at);
    law_meant_symbols_keep_their_order(hits, qname);
    let meant = meant_places(hits, qname);
    let k = choose|k: int| 0 <= k < meant.len() && meant[k] == at;
    assert forall|i: int| 0 <= i < meant.len() implies #[trigger] meant[i] == at by {
        assert(is_named(hits[meant[i]], qname));
    }
    assert(meant.len() == 1) by {
        if meant.len() > 1 {
            assert(meant[0] < meant[1]);
        }
    }
}

/// Where several of the symbols that were found are meant, the candidates are these, in
/// order, as far as candidates are listed.
pub proof fn law_scope_candidates_are_what_is_meant(
    resolution: SymbolResolution,
    hits: Seq<SymbolFacts>,
    qname: Seq<char>,
    scope: Seq<char>,
)
    requires
        resolves_in_scope(resolution, hits, qname, scope),
    ensures
        resolution is NotFound <==> hits.len() == 0,
        resolution matches SymbolResolution::Ambiguous { candidates, .. } ==> forall|i: int|
            0 <= i < candidates@.len() ==> (#[trigger] candidates@[i]).symbol_id@
                == hits[meant_places(hits, qname)[i]].symbol_id@ && candidates@[i].qualified_name@
                == hits[meant_places(hits, qname)[i]].qualified_name@ && candidates@[i].file_path@
                == hits[meant_places(hits, qname)[i]].file_path@,
{
    law_meant_symbols_keep_their_order(hits, qname);
    if hits.len() > 0 && meant_places(hits, qname).len() == 0 {
        assert(named_places(hits, qname, hits.len()).len() == 0);
    }
    if hits.len() == 0 {
        assert(named_places(hits, qname, 0).len() == 0);
    }
}

/// Whether a listed value offers a candidate.
pub open spec fn offers(listed: JsonView, candidate: ScoredCandidate) -> bool {
    &&& listed.text_field("qualified_name"@) == Some(candidate.qualified_name@)
    &&& listed.text_field("file_path"@) == Some(candidate.file_path@)
    &&& listed.unsigned_field("line"@) == Some(candidate.line as u64)
    &&& listed.text_field("kind"@) == Some(candidate.kind@)
    &&& listed.text_field("language"@) == Some(candidate.language@)
    &&& candidate.score >= 0 ==> listed.unsigned_field("score"@) == Some(candidate.score as u64)
    &&& listed.field("reasons"@) matches Some(JsonView::Array(reasons)) && reasons.len()
        == candidate.reasons@.len() && forall|i: int|
        0 <= i < reasons.len() ==> #[trigger] reasons[i] == JsonView::Str(candidate.reasons@[i]@)
    &&& listed.field("symbol_ref"@) matches Some(selector) && selector.text_field(
        "qualified_name"@,
    ) == Some(candidate.symbol_ref.qualified_name@)
}

/// A request for an ambiguous name is offered every candidate, in order.
pub proof fn law_every_candidate_is_offered(
    qname: Seq<char>,
    candidates: Seq<ScoredCandidate>,
    score_gap: i64,
)
    ensures
        ({
            let body = JsonView::Object(ambiguous_fields(qname, candidates, score_gap));
            &&& body.text_field("symbol"@) == Some(qname)
            &&& body.bool_field("ambiguous"@) == Some(true)
            &&& score_gap >= 0 ==> body.unsigned_field("score_gap"@) == Some(score_gap as u64)
            &&& body.field("candidates"@) matches Some(JsonView::Array(listed)) && listed.len()
                == candidates.len() && forall|i: int|
                0 <= i < listed.len() ==> offers(#[trigger] listed[i], candidates[i])
        }),
{
    reveal_strlit("symbol");
    reveal_strlit("ambiguous");
    reveal_strlit("score_gap");
    reveal_strlit("candidates");
    reveal_strlit("qualified_name");
    reveal_strlit("file_path");
    reveal_strlit("line");
    reveal_strlit("kind");
    reveal_strlit("language");
    reveal_strlit("score");
    reveal_strlit("reasons");
    reveal_strlit("symbol_ref");
    assert("symbol"@.len() != "ambiguous"@.len());
    assert("symbol"@.len() != "score_gap"@.len());
    assert("symbol"@.len() != "candidates"@.len());
    assert("ambiguous"@[0] != "score_gap"@[0]);
    assert("ambiguous"@.len() != "candidates"@.len());
    assert("score_gap"@.len() != "candidates"@.len());
    assert("qualified_name"@.len() != "file_path"@.len());
    assert("qualified_name"@.len() != "line"@.len());
    assert("qualified_name"@.len() != "kind"@.len());
    assert("qualified_name"@.len() != "language"@.len());
    assert("qualified_name"@.len() != "score"@.len());
    assert("qualified_name"@.len() != "reasons"@.len());
    assert("qualified_name"@.len() != "symbol_ref"@.len());
    assert("file_path"@.len() != "line"@.len());
    assert("file_path"@.len() != "kind"@.len());
    assert("file_path"@.len() != "language"@.len());
    assert("file_path"@.len() != "score"@.len());
    assert("file_path"@.len() != "reasons"@.len());
    assert("file_path"@.len() != "symbol_ref"@.len());
    assert("line"@[0] != "kind"@[0]);
    assert("line"@.len() != "language"@.len());
    assert("line"@.len() != "score"@.len());
    assert("line"@.len() != "reasons"@.len());
    assert("line"@.len() != "symbol_ref"@.len());
    assert("kind"@.len() != "language"@.len());
    assert("kind"@.len() != "score"@.len());
    assert("kind"@.len() != "reasons"@.len());
    assert("kind"@.len() != "symbol_ref"@.len());
    assert("language"@.len() != "score"@.len());
    assert("language"@.len() != "reasons"@.len());
    assert("language"@.len() != "symbol_ref"@.len());
    assert("score"@.len() != "reasons"@.len());
    assert("score"@.len() != "symbol_ref"@.len());
    assert("reasons"@.len() != "symbol_ref"@.len());
    let body = JsonView::Object(ambiguous_fields(qname, candidates, score_gap));
    if let Some(JsonView::Array(listed)) = body.field("candidates"@) {
        assert forall|i: int| 0 <= i < listed.len() implies offers(
            #[trigger] listed[i],
            candidates[i],
        ) by {
            assert(listed[i] == offered_view(candidates[i]));
            crate::tools::symbols::law_selector_is_written_as_it_is(candidates[i].symbol_ref);
        }
    }
}

/// A request for an unknown name is told the name, what it may have meant, and either the
/// scope that was searched or the files in which the name may be.
pub proof fn law_unknown_name_is_told(
    qname: Seq<char>,
    suggestions: Seq<Seq<char>>,
    scope: Option<Seq<char>>,
    candidate_files: Seq<Seq<char>>,
)
    ensures
        ({
            let body = JsonView::Object(unknown_fields(qname, suggestions, scope, candidate_files));
            &&& body.text_field("symbol"@) == Some(qname)
            &&& body.text_field("status"@) == Some("unresolved"@)
            &&& body.text_field("scope"@) == scope
            &&& body.field("suggestions"@) == if suggestions.len() > 0 {
                Some(text_array(suggestions))
            } else {
                None
            }
            &&& body.field("candidate_files"@) == if scope is None && candidate_files.len() > 0 {
                Some(text_array(candidate_files))
            } else {
                None
            }
        }),
{
    reveal_strlit("symbol");
    reveal_strlit("status");
    reveal_strlit("message");
    reveal_strlit("suggestions");
    reveal_strlit("scope");
    reveal_strlit("candidate_files");
    assert("symbol"@[1] != "status"@[1]);
    assert("symbol"@.len() != "message"@.len());
    assert("symbol"@.len() != "suggestions"@.len());
    assert("symbol"@.len() != "scope"@.len());
    assert("symbol"@.len() != "candidate_files"@.len());
    assert("status"@.len() != "message"@.len());
    assert("status"@.len() != "suggestions"@.len());
    assert("status"@.len() != "scope"@.len());
    assert("status"@.len() != "candidate_files"@.len());
    assert("message"@.len() != "suggestions"@.len());
    assert("message"@.len() != "scope"@.len());
    assert("message"@.len() != "candidate_files"@.len());
    assert("suggestions"@.len() != "scope"@.len());
    assert("suggestions"@.len() != "candidate_files"@.len());
    assert("scope"@.len() != "candidate_files"@.len());
}

/// A dossier is handed out as it is, but for the internal tier and for how the name was
/// resolved.
pub proof fn law_dossier_is_handed_out_whole(
    dossier: Map<Seq<char>, JsonView>,
    resolved: Option<JsonView>,
)
    ensures
        ({
            let body = JsonView::Object(dossier_fields(dossier, resolved));
            &&& forall|name: Seq<char>|
                name != "precisionTier"@ && (resolved is Some ==> name != "resolution"@)
                    ==> #[trigger] body.field(name) == JsonView::Object(dossier).field(name)
            &&& resolved matches Some(symbol) ==> (body.field("resolution"@) matches Some(told)
                && told.field("resolved"@) == Some(symbol))
        }),
{
    reveal_strlit("policy");
    reveal_strlit("resolved");
    reveal_strlit("precisionTier");
    reveal_strlit("resolution");
    assert("policy"@.len() != "resolved"@.len());
    assert("precisionTier"@.len() != "resolution"@.len());
}

/// What failed is told, by the name that was asked for or by the error.
pub proof fn law_failures_are_told(
    failure: ExploreFailure,
    qname: Seq<char>,
    guidance: Seq<char>,
)
    ensures
        ({
            let message = failure_message(failure, qname, guidance);
            match failure {
                ExploreFailure::NotStored => (qname + guidance).is_suffix_of(message),
                ExploreFailure::LookupFailed(e) => (e@ + guidance).is_suffix_of(message),
                ExploreFailure::Disappeared => qname.is_suffix_of(message),
                ExploreFailure::SecondLookupFailed(e) => e@.is_suffix_of(message),
                ExploreFailure::NoGraph => true,
                ExploreFailure::DossierFailed(e) => e@.is_suffix_of(message),
            }
        }),
{
    let message = failure_message(failure, qname, guidance);
    let end = match failure {
        ExploreFailure::NotStored => qname + guidance,
        ExploreFailure::LookupFailed(e) => e@ + guidance,
        ExploreFailure::Disappeared => qname,
        ExploreFailure::SecondLookupFailed(e) => e@,
        ExploreFailure::NoGraph => Seq::empty(),
        ExploreFailure::DossierFailed(e) => e@,
    };
    assert(message.subrange(message.len() - end.len(), message.len() as int) =~= end);
}

/// A symbol argument names a file only where it is a selector with a path that is not
/// blank.
pub proof fn law_files_are_named_by_selectors(input: SymbolInput)
    ensures
        names_file(input) ==> (input matches SymbolInput::Selector(selector)
            && selector.file_path is Some),
        input matches SymbolInput::Selector(selector) ==> (selector.file_path matches Some(path)
            ==> (names_file(input) <==> trimmed(path@).len() > 0)),
{
}

/// The whole source is shown where it is asked for in full, none where none is asked for,
/// and an excerpt in every other case.
pub proof fn law_source_is_shown_as_asked(args: JsonView)
    ensures
        source_mode_of(args) is Full <==> args.text_field("source_mode"@) == Some("full"@),
        source_mode_of(args) is Nothing <==> args.text_field("source_mode"@) == Some("none"@),
{
    reveal_strlit("full");
    reveal_strlit("none");
    assert("full"@[0] != "none"@[0]);
}

/// Every candidate in a scope is told as the symbol that it stands for, with the score and
/// the reason of the scope, and with a selector that names it; there are as many as are
/// meant, up to the number that is listed.
pub proof fn law_scope_candidates_are_told(
    resolution: SymbolResolution,
    hits: Seq<SymbolFacts>,
    qname: Seq<char>,
    scope: Seq<char>,
)
    requires
        resolves_in_scope(resolution, hits, qname, scope),
    ensures
        resolution matches SymbolResolution::Ambiguous { candidates, score_gap } ==> {
            let meant = meant_places(hits, qname);
            &&& score_gap == 0
            &&& candidates@.len() <= MAX_AMBIGUOUS_CANDIDATES
            &&& candidates@.len() == meant.len() || candidates@.len() == MAX_AMBIGUOUS_CANDIDATES
                && meant.len() > MAX_AMBIGUOUS_CANDIDATES
            &&& forall|i: int|
                0 <= i < candidates@.len() ==> (#[trigger] candidates@[i]).line == shown_line(
                    hits[meant[i]].start_line,
                ) && candidates@[i].kind@ == hits[meant[i]].kind_name@ && candidates@[i].language@
                    == hits[meant[i]].language@ && candidates@[i].score == SCOPE_SCORE
                    && candidates@[i].reasons@.len() == 1 && scope.is_suffix_of(
                    candidates@[i].reasons@[0]@,
                ) && candidates@[i].symbol_ref.qualified_name@ == hits[meant[i]].qualified_name@
                    && string_view(candidates@[i].symbol_ref.file_path) == Some(
                    hits[meant[i]].file_path@,
                ) && candidates@[i].symbol_ref.line == Some(candidates@[i].line)
        },
        resolution matches SymbolResolution::Single { resolved, .. } ==> resolved.line
            == shown_line(hits[meant_places(hits, qname)[0]].start_line),
{
    if let SymbolResolution::Ambiguous { candidates, .. } = resolution {
        let meant = meant_places(hits, qname);
        assert forall|i: int| 0 <= i < candidates@.len() implies (
        #[trigger] candidates@[i]).reasons@.len() == 1 && scope.is_suffix_of(
            candidates@[i].reasons@[0]@,
        ) by {
            assert(is_scope_candidate(candidates@[i], hits[meant[i]], scope));
            let reasons = strings_view(candidates@[i].reasons@);
            assert(reasons.len() == 1);
            assert(reasons[0] == "scope:"@ + scope);
            let reason = candidates@[i].reasons@[0]@;
            assert(reason.subrange(reason.len() - scope.len(), reason.len() as int) =~= scope);
        }
    }
}

/// A name that stands for nothing in a scope is told, and nothing is suggested for it.
pub proof fn law_nothing_found_is_told(
    resolution: SymbolResolution,
    qname: Seq<char>,
    scope: Seq<char>,
)
    requires
        resolves_in_scope(resolution, Seq::empty(), qname, scope),
    ensures
        resolution matches SymbolResolution::NotFound { qname: name, suggestions } && name@ == qname
            && suggestions@.len() == 0,
{
    assert(named_places(Seq::empty(), qname, 0).len() == 0);
}

/// The selector of a candidate in a scope names it as a whole.
pub proof fn law_scope_candidates_have_whole_selectors(
    candidate: ScoredCandidate,
    symbol: SymbolFacts,
    scope: Seq<char>,
)
    requires
        is_scope_candidate(candidate, symbol, scope),
    ensures
        candidate.symbol_ref.line == Some(candidate.line),
        string_view(candidate.symbol_ref.kind) == Some(candidate.kind@),
        string_view(candidate.symbol_ref.language) == Some(candidate.language@),
        string_view(candidate.symbol_ref.file_path) == Some(candidate.file_path@),
        candidate.symbol_ref.qualified_name@ == candidate.qualified_name@,
{
}

} // verus!
