//! Symbols, the selectors that requests name them with, and what a selector
//! resolves to.

use vstd::prelude::*;
use vstd::string::*;

use crate::json::{items_view, no_fields, Json, JsonObject, JsonView};

use crate::text::{
    byte_len, decimal, join_texts, joined, push_decimal, str_view, strings_view, text_bytes,
};

verus! {

/// How many candidates of an ambiguous name are listed.
pub const MAX_AMBIGUOUS_CANDIDATES: usize = 5;

/// The identifier of a symbol.
#[derive(Clone, Copy, Debug, PartialEq, Eq)]
pub struct SymbolId {
    pub bytes: [u8; 32],
}

impl SymbolId {
    /// The bytes of the identifier.
    pub open spec fn view(self) -> Seq<u8> {
        self.bytes@
    }

    /// The identifier with the given bytes.
    pub fn from_bytes(bytes: [u8; 32]) -> (id: SymbolId)
        ensures
            id@ == bytes@,
    {
        SymbolId { bytes }
    }
}

/// Whether two identifiers are the same.
pub fn same_symbol(a: SymbolId, b: SymbolId) -> (same: bool)
    ensures
        same == (a@ == b@),
{
    let mut i: usize = 0;
    while i < 32
        invariant
            i <= 32,
            forall|j: int| 0 <= j < i ==> a.bytes@[j] == b.bytes@[j],
        decreases 32 - i,
    {
        if a.bytes[i] != b.bytes[i] {
            proof {
                assert(a@[i as int] != b@[i as int]);
            }
            return false;
        }
        i = i + 1;
    }
    proof {
        assert(a@ =~= b@);
    }
    true
}

/// The identifiers of a list.
pub open spec fn ids_view(ids: Seq<SymbolId>) -> Seq<Seq<u8>> {
    Seq::new(ids.len(), |i: int| ids[i]@)
}

/// Whether an identifier is in a list.
pub fn contains_symbol(ids: &Vec<SymbolId>, id: SymbolId) -> (found: bool)
    ensures
        found == ids_view(ids@).contains(id@),
{
    let mut i: usize = 0;
    while i < ids.len()
        invariant
            i <= ids@.len(),
            forall|j: int| 0 <= j < i ==> (#[trigger] ids@[j])@ != id@,
        decreases ids@.len() - i,
    {
        if same_symbol(ids[i], id) {
            proof {
                assert(ids_view(ids@)[i as int] == id@);
            }
            return true;
        }
        i = i + 1;
    }
    proof {
        assert forall|j: int| 0 <= j < ids_view(ids@).len() implies ids_view(ids@)[j] != id@ by {
            assert(ids@[j]@ != id@);
        }
    }
    false
}

/// What a symbol is, as far as the tools tell kinds apart.
#[derive(Clone, Copy, Debug, PartialEq, Eq, Structural)]
pub enum SymbolKind {
    Function,
    Method,
    Constructor,
    Field,
    Other,
}

/// Whether a symbol can be called.
pub fn is_callable_kind(kind: SymbolKind) -> (callable: bool)
    ensures
        callable == (kind is Function || kind is Method || kind is Constructor),
{
    match kind {
        SymbolKind::Function | SymbolKind::Method | SymbolKind::Constructor => true,
        _ => false,
    }
}

/// How a request names a symbol.
pub struct SymbolSelector {
    pub qualified_name: String,
    pub file_path: Option<String>,
    pub line: Option<u32>,
    pub kind: Option<String>,
    pub language: Option<String>,
}

/// The symbol argument of a request.
pub enum SymbolInput {
    Name(String),
    Selector(SymbolSelector),
}

/// The name in a symbol argument.
pub open spec fn input_name(input: SymbolInput) -> Seq<char> {
    match input {
        SymbolInput::Name(name) => name@,
        SymbolInput::Selector(selector) => selector.qualified_name@,
    }
}

/// The name in a symbol argument.
pub fn symbol_input_qname(input: &SymbolInput) -> (name: &str)
    ensures
        name@ == input_name(*input),
{
    match input {
        SymbolInput::Name(name) => name.as_str(),
        SymbolInput::Selector(selector) => selector.qualified_name.as_str(),
    }
}

/// Puts a text field, if there is a text.
pub open spec fn with_text(
    fields: Map<Seq<char>, JsonView>,
    name: Seq<char>,
    text: Option<Seq<char>>,
) -> Map<Seq<char>, JsonView> {
    match text {
        Some(t) => fields.insert(name, JsonView::Str(t)),
        None => fields,
    }
}

/// A selector as a request would write it: what it does not say is left out.
pub open spec fn selector_fields(selector: SymbolSelector) -> Map<Seq<char>, JsonView> {
    let named = no_fields().insert("qualified_name"@, JsonView::Str(selector.qualified_name@));
    let placed = with_text(
        named,
        "file_path"@,
        crate::text::string_view(selector.file_path),
    );
    let lined = match selector.line {
        Some(line) => placed.insert("line"@, JsonView::Unsigned(line as u64)),
        None => placed,
    };
    with_text(
        with_text(lined, "kind"@, crate::text::string_view(selector.kind)),
        "language"@,
        crate::text::string_view(selector.language),
    )
}

fn put_text(object: &mut JsonObject, name: &str, text: &Option<String>)
    ensures
        final(object)@ == with_text(old(object)@, name@, crate::text::string_view(*text)),
{
    match text {
        Some(t) => {
            object.put(name, Json::text(t.as_str()));
        },
        None => {},
    }
}

/// A selector as a request would write it.
pub fn selector_to_json(selector: &SymbolSelector) -> (json: Json)
    ensures
        json@ == JsonView::Object(selector_fields(*selector)),
{
    let mut object = JsonObject::new();
    object.put("qualified_name", Json::text(selector.qualified_name.as_str()));
    put_text(&mut object, "file_path", &selector.file_path);
    match selector.line {
        Some(line) => {
            object.put("line", Json::Unsigned(line as u64));
        },
        None => {},
    }
    put_text(&mut object, "kind", &selector.kind);
    put_text(&mut object, "language", &selector.language);
    Json::Object(object)
}

/// A symbol that a request may have meant.
pub struct ScoredCandidate {
    pub qualified_name: String,
    pub file_path: String,
    pub line: u32,
    pub kind: String,
    pub language: String,
    pub score: i64,
    pub reasons: Vec<String>,
    pub symbol_ref: SymbolSelector,
    pub symbol_id: SymbolId,
}

/// The symbol that a request means.
pub struct ResolvedSymbol {
    pub qualified_name: String,
    pub file_path: String,
    pub line: u32,
    pub kind: String,
    pub language: String,
}

/// What a symbol argument resolves to.
pub enum SymbolResolution {
    Single { symbol_id: SymbolId, resolved: ResolvedSymbol },
    Ambiguous { candidates: Vec<ScoredCandidate>, score_gap: i64 },
    NotFound { qname: String, suggestions: Vec<String> },
}

/// The name of a symbol that was not found.
pub open spec fn missing_name(resolution: SymbolResolution) -> Option<Seq<char>> {
    match resolution {
        SymbolResolution::NotFound { qname, .. } => Some(qname@),
        _ => None,
    }
}

/// The name of a symbol that was not found.
pub fn not_found_resolution_qname(resolution: &SymbolResolution) -> (name: Option<&str>)
    ensures
        str_view(name) == missing_name(*resolution),
{
    match resolution {
        SymbolResolution::NotFound { qname, .. } => Some(qname.as_str()),
        _ => None,
    }
}

/// Whether a symbol is looked up once more after files that may hold it have been
/// analysed: only where it was not found.
pub fn needs_focus_retry(resolution: &SymbolResolution) -> (retry: bool)
    ensures
        retry == (missing_name(*resolution) is Some),
{
    match resolution {
        SymbolResolution::NotFound { .. } => true,
        _ => false,
    }
}

/// A matched symbol in resolution metadata.
pub open spec fn match_view(
    qualified_name: Seq<char>,
    file_path: Seq<char>,
    line: u32,
    kind: Seq<char>,
    language: Seq<char>,
) -> JsonView {
    JsonView::Object(
        no_fields().insert("qualified_name"@, JsonView::Str(qualified_name)).insert(
            "file_path"@,
            JsonView::Str(file_path),
        ).insert("line"@, JsonView::Unsigned(line as u64)).insert(
            "kind"@,
            JsonView::Str(kind),
        ).insert("language"@, JsonView::Str(language)),
    )
}

/// A candidate in resolution metadata.
pub open spec fn candidate_match(candidate: ScoredCandidate) -> JsonView {
    match_view(
        candidate.qualified_name@,
        candidate.file_path@,
        candidate.line,
        candidate.kind@,
        candidate.language@,
    )
}

/// The resolved symbol in resolution metadata.
pub open spec fn resolved_match(resolved: ResolvedSymbol) -> JsonView {
    match_view(
        resolved.qualified_name@,
        resolved.file_path@,
        resolved.line,
        resolved.kind@,
        resolved.language@,
    )
}

/// Candidates in resolution metadata.
pub open spec fn candidate_matches(candidates: Seq<ScoredCandidate>) -> Seq<JsonView> {
    Seq::new(candidates.len(), |i: int| candidate_match(candidates[i]))
}

/// Resolution metadata.
pub open spec fn resolution_meta(count: nat, matches: Seq<JsonView>) -> Map<Seq<char>, JsonView> {
    no_fields().insert("policy"@, JsonView::Str("aggregated"@)).insert(
        "count"@,
        JsonView::Unsigned(count as u64),
    ).insert("matched_candidates"@, JsonView::Array(matches))
}

fn match_to_json(
    qualified_name: &str,
    file_path: &str,
    line: u32,
    kind: &str,
    language: &str,
) -> (json: Json)
    ensures
        json@ == match_view(qualified_name@, file_path@, line, kind@, language@),
{
    let mut object = JsonObject::new();
    object.put("qualified_name", Json::text(qualified_name));
    object.put("file_path", Json::text(file_path));
    object.put("line", Json::Unsigned(line as u64));
    object.put("kind", Json::text(kind));
    object.put("language", Json::text(language));
    Json::Object(object)
}

fn meta_object(count: usize, matches: Vec<Json>) -> (meta: JsonObject)
    ensures
        meta@ == resolution_meta(count as nat, items_view(matches@)),
{
    let mut meta = JsonObject::new();
    meta.put("policy", Json::text("aggregated"));
    meta.put("count", Json::count(count));
    meta.put("matched_candidates", Json::Array(matches));
    meta
}

/// Resolution metadata for a list of candidates.
pub fn build_resolution_meta(candidates: &Vec<ScoredCandidate>, count: usize) -> (meta: Json)
    ensures
        meta@ == JsonView::Object(
            resolution_meta(count as nat, candidate_matches(candidates@)),
        ),
{
    let mut matches: Vec<Json> = Vec::new();
    let mut i: usize = 0;
    while i < candidates.len()
        invariant
            i <= candidates@.len(),
            matches@.len() == i,
            forall|j: int|
                0 <= j < i ==> (#[trigger] matches@[j])@ == candidate_match(candidates@[j]),
        decreases candidates@.len() - i,
    {
        let candidate = &candidates[i];
        matches.push(
            match_to_json(
                candidate.qualified_name.as_str(),
                candidate.file_path.as_str(),
                candidate.line,
                candidate.kind.as_str(),
                candidate.language.as_str(),
            ),
        );
        i = i + 1;
    }
    proof {
        assert(items_view(matches@) =~= candidate_matches(candidates@));
    }
    Json::Object(meta_object(count, matches))
}

fn resolved_meta(resolved: &ResolvedSymbol) -> (meta: Json)
    ensures
        meta@ == JsonView::Object(resolution_meta(1, seq![resolved_match(*resolved)])),
{
    let mut matches: Vec<Json> = Vec::new();
    matches.push(
        match_to_json(
            resolved.qualified_name.as_str(),
            resolved.file_path.as_str(),
            resolved.line,
            resolved.kind.as_str(),
            resolved.language.as_str(),
        ),
    );
    proof {
        assert(items_view(matches@) =~= seq![resolved_match(*resolved)]);
    }
    Json::Object(meta_object(1, matches))
}

/// The symbols that a resolution stands for, in order.
pub open spec fn resolution_ids(resolution: SymbolResolution) -> Seq<Seq<u8>> {
    match resolution {
        SymbolResolution::Single { symbol_id, .. } => seq![symbol_id@],
        SymbolResolution::Ambiguous { candidates, .. } => Seq::new(
            candidates@.len(),
            |i: int| candidates@[i].symbol_id@,
        ),
        SymbolResolution::NotFound { .. } => Seq::empty(),
    }
}

/// The metadata of a resolution.
pub open spec fn endpoint_meta(resolution: SymbolResolution) -> JsonView {
    match resolution {
        SymbolResolution::Single { resolved, .. } => JsonView::Object(
            resolution_meta(1, seq![resolved_match(resolved)]),
        ),
        SymbolResolution::Ambiguous { candidates, .. } => JsonView::Object(
            resolution_meta(candidates@.len(), candidate_matches(candidates@)),
        ),
        SymbolResolution::NotFound { qname, .. } => JsonView::Object(
            resolution_meta(0, Seq::empty()).insert("qname"@, JsonView::Str(qname@)),
        ),
    }
}

/// What a request is told whose symbol resolves to nothing.
pub open spec fn unresolved_message(resolution: SymbolResolution, qname: Seq<char>) -> Seq<char> {
    match resolution {
        SymbolResolution::NotFound { qname: name, suggestions } => {
            let plain = "Symbol not found: "@ + name@;
            if suggestions@.len() > 0 {
                plain + ". Did you mean: "@ + joined(strings_view(suggestions@), ", "@) + "?"@
            } else {
                plain
            }
        },
        _ => "Symbol '"@ + qname + "' resolved but no matching symbols found"@,
    }
}

/// The symbols that a resolution stands for, with its metadata; an error where
/// there are none.
pub fn resolution_to_symbol_ids_and_meta(resolution: &SymbolResolution, qname: &str) -> (found: Result<
    (Vec<SymbolId>, Json),
    String,
>)
    ensures
        match found {
            Ok((ids, meta)) => resolution_ids(*resolution).len() > 0 && ids_view(ids@)
                == resolution_ids(*resolution) && meta@ == endpoint_meta(*resolution),
            Err(e) => resolution_ids(*resolution).len() == 0 && e@ == unresolved_message(
                *resolution,
                qname@,
            ),
        },
{
    match resolution {
        SymbolResolution::Single { symbol_id, resolved } => {
            let mut ids: Vec<SymbolId> = Vec::new();
            ids.push(*symbol_id);
            proof {
                assert(ids_view(ids@) =~= seq![symbol_id@]);
            }
            Ok((ids, resolved_meta(resolved)))
        },
        SymbolResolution::Ambiguous { candidates, .. } => {
            if candidates.len() == 0 {
                let mut message = "Symbol '".to_owned();
                message.append(qname);
                message.append("' resolved but no matching symbols found");
                return Err(message);
            }
            let mut ids: Vec<SymbolId> = Vec::new();
            let mut i: usize = 0;
            while i < candidates.len()
                invariant
                    i <= candidates@.len(),
                    ids@.len() == i,
                    forall|j: int|
                        0 <= j < i ==> (#[trigger] ids@[j])@ == candidates@[j].symbol_id@,
                decreases candidates@.len() - i,
            {
                ids.push(candidates[i].symbol_id);
                i = i + 1;
            }
            proof {
                assert(ids_view(ids@) =~= resolution_ids(*resolution));
            }
            let meta = build_resolution_meta(candidates, ids.len());
            Ok((ids, meta))
        },
        SymbolResolution::NotFound { qname: name, suggestions } => {
            let mut message = "Symbol not found: ".to_owned();
            message.append(name.as_str());
            if suggestions.len() > 0 {
                message.append(". Did you mean: ");
                message.append(join_texts(suggestions, ", ").as_str());
                message.append("?");
            }
            Err(message)
        },
    }
}

/// The metadata of the resolution of a path endpoint.
pub fn build_resolution_meta_for_path(resolution: &SymbolResolution) -> (meta: Json)
    ensures
        meta@ == endpoint_meta(*resolution),
{
    match resolution {
        SymbolResolution::Single { resolved, .. } => resolved_meta(resolved),
        SymbolResolution::Ambiguous { candidates, .. } => build_resolution_meta(
            candidates,
            candidates.len(),
        ),
        SymbolResolution::NotFound { qname, .. } => {
            let none: Vec<Json> = Vec::new();
            let mut meta = meta_object(0, none);
            proof {
                assert(items_view(none@) =~= Seq::empty());
            }
            meta.put("qname", Json::text(qname.as_str()));
            Json::Object(meta)
        },
    }
}

/// The line that is shown for a symbol: lines are counted from one.
pub open spec fn shown_line(start_line: u32) -> u32 {
    if start_line < u32::MAX {
        (start_line + 1) as u32
    } else {
        u32::MAX
    }
}

/// The line that is shown for a symbol: lines are counted from one.
pub fn line_number(start_line: u32) -> (line: u32)
    ensures
        line == shown_line(start_line),
{
    if start_line < u32::MAX {
        start_line + 1
    } else {
        u32::MAX
    }
}

/// A stored symbol.
pub struct SymbolFacts {
    pub symbol_id: SymbolId,
    pub name: String,
    pub qualified_name: String,
    pub kind: SymbolKind,
    pub kind_name: String,
    pub language: String,
    pub file_path: String,
    pub start_line: u32,
    pub signature: Option<String>,
}

/// A candidate of an ambiguous path endpoint.
pub open spec fn candidate_view(symbol: Option<SymbolFacts>, selected: bool) -> JsonView {
    match symbol {
        Some(s) => {
            let name = JsonView::Str(s.qualified_name@);
            let file = JsonView::Str(s.file_path@);
            let line = JsonView::Unsigned(shown_line(s.start_line) as u64);
            let kind = JsonView::Str(s.kind_name@);
            JsonView::Object(
                no_fields().insert("qualified_name"@, name).insert("file"@, file).insert(
                    "line"@,
                    line,
                ).insert("kind"@, kind).insert("selected"@, JsonView::Bool(selected)).insert(
                    "symbol_ref"@,
                    JsonView::Object(
                        no_fields().insert("qualified_name"@, name).insert(
                            "file_path"@,
                            file,
                        ).insert("line"@, line).insert("kind"@, kind),
                    ),
                ),
            )
        },
        None => JsonView::Object(
            no_fields().insert("qualified_name"@, JsonView::Str("unknown"@)).insert(
                "file"@,
                JsonView::Str("unknown"@),
            ).insert("line"@, JsonView::Unsigned(0)).insert(
                "kind"@,
                JsonView::Str("unknown"@),
            ).insert("selected"@, JsonView::Bool(selected)),
        ),
    }
}

/// A candidate of an ambiguous path endpoint, with the selector that names it.
pub fn candidate_json(symbol: &Option<SymbolFacts>, selected: bool) -> (json: Json)
    ensures
        json@ == candidate_view(*symbol, selected),
{
    let mut object = JsonObject::new();
    match symbol {
        Some(s) => {
            let line: u64 = line_number(s.start_line) as u64;
            object.put("qualified_name", Json::text(s.qualified_name.as_str()));
            object.put("file", Json::text(s.file_path.as_str()));
            object.put("line", Json::Unsigned(line));
            object.put("kind", Json::text(s.kind_name.as_str()));
            object.put("selected", Json::Bool(selected));
            let mut selector = JsonObject::new();
            selector.put("qualified_name", Json::text(s.qualified_name.as_str()));
            selector.put("file_path", Json::text(s.file_path.as_str()));
            selector.put("line", Json::Unsigned(line));
            selector.put("kind", Json::text(s.kind_name.as_str()));
            object.put("symbol_ref", Json::Object(selector));
        },
        None => {
            object.put("qualified_name", Json::text("unknown"));
            object.put("file", Json::text("unknown"));
            object.put("line", Json::Unsigned(0));
            object.put("kind", Json::text("unknown"));
            object.put("selected", Json::Bool(selected));
        },
    }
    Json::Object(object)
}

/// What a request is told whose symbol name is too long.
pub open spec fn name_too_long(max_length: nat) -> Seq<char> {
    "Symbol name exceeds maximum length of "@ + decimal(max_length) + " characters"@
}

/// Whether a symbol name is short enough, in bytes.
pub fn validate_symbol_name_length(name: &str, max_length: usize) -> (valid: Result<(), String>)
    ensures
        match valid {
            Ok(_) => byte_len(name@) <= max_length,
            Err(e) => byte_len(name@) > max_length && e@ == name_too_long(max_length as nat),
        },
{
    if text_bytes(name) > max_length {
        let mut message = "Symbol name exceeds maximum length of ".to_owned();
        push_decimal(&mut message, max_length as u64);
        message.append(" characters");
        Err(message)
    } else {
        Ok(())
    }
}

/// The selector of a listed candidate names the symbol that is listed.
pub proof fn law_candidate_selector_names_the_candidate(symbol: SymbolFacts, selected: bool)
    ensures
        candidate_view(Some(symbol), selected).field("symbol_ref"@) matches Some(selector)
            && selector.text_field("qualified_name"@) == Some(symbol.qualified_name@)
            && selector.text_field("file_path"@) == Some(symbol.file_path@)
            && selector.unsigned_field("line"@) == Some(shown_line(symbol.start_line) as u64),
{
    reveal_strlit("qualified_name");
    reveal_strlit("file_path");
    reveal_strlit("line");
    reveal_strlit("kind");
    assert("qualified_name"@[0] == 'q');
    assert("file_path"@[0] == 'f');
    assert("line"@[0] == 'l');
    assert("kind"@[0] == 'k');
}

/// Whether a listed value tells a matched symbol.
pub open spec fn tells_match(
    listed: JsonView,
    qualified_name: Seq<char>,
    file_path: Seq<char>,
    line: u32,
    kind: Seq<char>,
    language: Seq<char>,
) -> bool {
    &&& listed.text_field("qualified_name"@) == Some(qualified_name)
    &&& listed.text_field("file_path"@) == Some(file_path)
    &&& listed.unsigned_field("line"@) == Some(line as u64)
    &&& listed.text_field("kind"@) == Some(kind)
    &&& listed.text_field("language"@) == Some(language)
}

proof fn lemma_match_is_told(
    qualified_name: Seq<char>,
    file_path: Seq<char>,
    line: u32,
    kind: Seq<char>,
    language: Seq<char>,
)
    ensures
        tells_match(
            match_view(qualified_name, file_path, line, kind, language),
            qualified_name,
            file_path,
            line,
            kind,
            language,
        ),
{
    reveal_strlit("qualified_name");
    reveal_strlit("file_path");
    reveal_strlit("line");
    reveal_strlit("kind");
    reveal_strlit("language");
    assert("qualified_name"@.len() != "file_path"@.len());
    assert("qualified_name"@.len() != "line"@.len());
    assert("qualified_name"@.len() != "kind"@.len());
    assert("qualified_name"@.len() != "language"@.len());
    assert("file_path"@.len() != "line"@.len());
    assert("file_path"@.len() != "kind"@.len());
    assert("file_path"@.len() != "language"@.len());
    assert("line"@[0] != "kind"@[0]);
    assert("line"@.len() != "language"@.len());
    assert("kind"@.len() != "language"@.len());
}

/// A resolution stands for the one symbol that was found, for all of its candidates in
/// order, or for nothing; and its metadata counts and tells each of these.
pub proof fn law_resolution_stands_for_all_it_found(resolution: SymbolResolution)
    requires
        resolution_ids(resolution).len() <= u64::MAX,
    ensures
        ({
            let ids = resolution_ids(resolution);
            let meta = endpoint_meta(resolution);
            &&& meta.unsigned_field("count"@) == Some(ids.len() as u64)
            &&& meta.field("matched_candidates"@) matches Some(JsonView::Array(told)) && told.len()
                == ids.len() && match resolution {
                SymbolResolution::Single { symbol_id, resolved } => ids.len() == 1 && ids[0]
                    == symbol_id@ && tells_match(
                    told[0],
                    resolved.qualified_name@,
                    resolved.file_path@,
                    resolved.line,
                    resolved.kind@,
                    resolved.language@,
                ),
                SymbolResolution::Ambiguous { candidates, .. } => ids.len() == candidates@.len()
                    && forall|i: int|
                    #![trigger candidates@[i]]
                    0 <= i < candidates@.len() ==> ids[i] == candidates@[i].symbol_id@
                        && tells_match(
                        told[i],
                        candidates@[i].qualified_name@,
                        candidates@[i].file_path@,
                        candidates@[i].line,
                        candidates@[i].kind@,
                        candidates@[i].language@,
                    ),
                SymbolResolution::NotFound { qname, .. } => ids.len() == 0 && meta.text_field(
                    "qname"@,
                ) == Some(qname@),
            }
        }),
{
    reveal_strlit("policy");
    reveal_strlit("count");
    reveal_strlit("matched_candidates");
    reveal_strlit("qname");
    assert("policy"@.len() != "count"@.len());
    assert("policy"@.len() != "matched_candidates"@.len());
    assert("policy"@.len() != "qname"@.len());
    assert("count"@.len() != "matched_candidates"@.len());
    assert("count"@[0] != "qname"@[0]);
    assert("matched_candidates"@.len() != "qname"@.len());
    match resolution {
        SymbolResolution::Single { symbol_id, resolved } => {
            lemma_match_is_told(
                resolved.qualified_name@,
                resolved.file_path@,
                resolved.line,
                resolved.kind@,
                resolved.language@,
            );
        },
        SymbolResolution::Ambiguous { candidates, .. } => {
            assert forall|i: int|
                #![trigger candidates@[i]]
                0 <= i < candidates@.len() implies tells_match(
                candidate_matches(candidates@)[i],
                candidates@[i].qualified_name@,
                candidates@[i].file_path@,
                candidates@[i].line,
                candidates@[i].kind@,
                candidates@[i].language@,
            ) by {
                let c = candidates@[i];
                lemma_match_is_told(
                    c.qualified_name@,
                    c.file_path@,
                    c.line,
                    c.kind@,
                    c.language@,
                );
            }
        },
        SymbolResolution::NotFound { .. } => {},
    }
}

/// A selector is written as what it says, and nothing else.
pub proof fn law_selector_is_written_as_it_is(selector: SymbolSelector)
    ensures
        ({
            let written = JsonView::Object(selector_fields(selector));
            &&& written.text_field("qualified_name"@) == Some(selector.qualified_name@)
            &&& written.text_field("file_path"@) == crate::text::string_view(selector.file_path)
            &&& written.unsigned_field("line"@) == match selector.line {
                Some(line) => Some(line as u64),
                None => None,
            }
            &&& written.text_field("kind"@) == crate::text::string_view(selector.kind)
            &&& written.text_field("language"@) == crate::text::string_view(selector.language)
        }),
{
    reveal_strlit("qualified_name");
    reveal_strlit("file_path");
    reveal_strlit("line");
    reveal_strlit("kind");
    reveal_strlit("language");
    assert("qualified_name"@.len() != "file_path"@.len());
    assert("qualified_name"@.len() != "line"@.len());
    assert("qualified_name"@.len() != "kind"@.len());
    assert("qualified_name"@.len() != "language"@.len());
    assert("file_path"@.len() != "line"@.len());
    assert("file_path"@.len() != "kind"@.len());
    assert("file_path"@.len() != "language"@.len());
    assert("line"@[0] != "kind"@[0]);
    assert("line"@.len() != "language"@.len());
    assert("kind"@.len() != "language"@.len());
}

/// What is listed of a candidate that is stored: its name, file, line counted from one and
/// kind, and whether it is the selected one.
pub proof fn law_candidate_is_listed_as_it_is(symbol: SymbolFacts, selected: bool)
    ensures
        ({
            let listed = candidate_view(Some(symbol), selected);
            let line = if symbol.start_line == u32::MAX {
                u32::MAX as u64
            } else {
                (symbol.start_line + 1) as u64
            };
            &&& listed.text_field("qualified_name"@) == Some(symbol.qualified_name@)
            &&& listed.text_field("file"@) == Some(symbol.file_path@)
            &&& listed.unsigned_field("line"@) == Some(line)
            &&& listed.text_field("kind"@) == Some(symbol.kind_name@)
            &&& listed.bool_field("selected"@) == Some(selected)
            &&& listed.field("symbol_ref"@) matches Some(selector) && selector.unsigned_field(
                "line"@,
            ) == Some(line) && selector.text_field("kind"@) == Some(symbol.kind_name@)
        }),
{
    reveal_strlit("qualified_name");
    reveal_strlit("file");
    reveal_strlit("line");
    reveal_strlit("kind");
    reveal_strlit("selected");
    reveal_strlit("symbol_ref");
    assert("qualified_name"@.len() != "file"@.len());
    assert("qualified_name"@.len() != "line"@.len());
    assert("qualified_name"@.len() != "kind"@.len());
    assert("qualified_name"@.len() != "selected"@.len());
    assert("qualified_name"@.len() != "symbol_ref"@.len());
    assert("file"@[0] != "line"@[0]);
    assert("file"@[0] != "kind"@[0]);
    assert("file"@.len() != "selected"@.len());
    assert("file"@.len() != "symbol_ref"@.len());
    assert("line"@[0] != "kind"@[0]);
    assert("line"@.len() != "selected"@.len());
    assert("line"@.len() != "symbol_ref"@.len());
    assert("kind"@.len() != "selected"@.len());
    assert("kind"@.len() != "symbol_ref"@.len());
    assert("selected"@.len() != "symbol_ref"@.len());
}

/// A name that was not found is told, with everything that it may have meant.
pub proof fn law_missing_symbol_is_told(
    resolution: SymbolResolution,
    asked: Seq<char>,
    qname: String,
    suggestions: Vec<String>,
)
    requires
        resolution == (SymbolResolution::NotFound { qname, suggestions }),
    ensures
        missing_name(resolution) == Some(qname@),
        crate::text::holds_text(unresolved_message(resolution, asked), qname@),
        suggestions@.len() > 0 ==> crate::text::holds_text(
            unresolved_message(resolution, asked),
            joined(strings_view(suggestions@), ", "@),
        ),
{
    let told = joined(strings_view(suggestions@), ", "@);
    let message = unresolved_message(resolution, asked);
    let start = "Symbol not found: "@;
    if suggestions@.len() > 0 {
        let rest = ". Did you mean: "@ + told + "?"@;
        crate::text::law_text_holds_its_parts(start, qname@, rest);
        assert(message =~= start + qname@ + rest);
        crate::text::law_text_holds_its_parts(start + qname@ + ". Did you mean: "@, told, "?"@);
    } else {
        crate::text::law_text_holds_its_parts(start, qname@, Seq::empty());
        assert(message =~= start + qname@ + Seq::<char>::empty());
    }
}

/// A candidate that is not stored is listed as unknown, without a selector, and marked like
/// any other.
pub proof fn law_unknown_candidate_is_listed(selected: bool)
    ensures
        ({
            let listed = candidate_view(None, selected);
            &&& listed.bool_field("selected"@) == Some(selected)
            &&& listed.unsigned_field("line"@) == Some(0u64)
            &&& listed.text_field("qualified_name"@) == Some("unknown"@)
            &&& listed.text_field("file"@) == Some("unknown"@)
            &&& listed.field("symbol_ref"@) is None
        }),
{
    reveal_strlit("qualified_name");
    reveal_strlit("file");
    reveal_strlit("line");
    reveal_strlit("kind");
    reveal_strlit("selected");
    reveal_strlit("symbol_ref");
    assert("qualified_name"@.len() != "file"@.len());
    assert("qualified_name"@.len() != "line"@.len());
    assert("qualified_name"@.len() != "kind"@.len());
    assert("qualified_name"@.len() != "selected"@.len());
    assert("qualified_name"@.len() != "symbol_ref"@.len());
    assert("file"@[0] != "line"@[0]);
    assert("file"@[0] != "kind"@[0]);
    assert("file"@.len() != "selected"@.len());
    assert("file"@.len() != "symbol_ref"@.len());
    assert("line"@[0] != "kind"@[0]);
    assert("line"@.len() != "selected"@.len());
    assert("line"@.len() != "symbol_ref"@.len());
    assert("kind"@.len() != "selected"@.len());
    assert("kind"@.len() != "symbol_ref"@.len());
    assert("selected"@.len() != "symbol_ref"@.len());
}

/// The identifiers of a list are those of its elements, in order.
pub proof fn law_identifiers_stand_in_order(ids: Seq<SymbolId>)
    ensures
        ids_view(ids).len() == ids.len(),
        forall|i: int| 0 <= i < ids.len() ==> #[trigger] ids_view(ids)[i] == ids[i].bytes@,
{
}

} // verus!
