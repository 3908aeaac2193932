//! Function-pointer dispatch annotations: declaring, listing and deleting which
//! function a function-pointer field calls. They apply to C and C++ only.

use vstd::prelude::*;
use vstd::string::*;

use crate::digest::{digest_prefix, digest_prefix_text};
use crate::json::{items_view, no_fields, Json, JsonObject, JsonView};
use crate::text::{
    byte_len, decimal, from_chars, join_texts, joined, push_decimal, strings_view, text_bytes,
    to_chars,
};
use crate::tools::args::{text_arg, text_of};
use crate::tools::symbols::{ScoredCandidate, SymbolId, SymbolKind, SymbolResolution};

verus! {

/// How many matches of an ambiguous name are listed.
pub const MAX_LISTED_MATCHES: usize = 5;

/// A response that reports an error.
pub open spec fn error_view(message: Seq<char>) -> JsonView {
    JsonView::Object(no_fields().insert("error"@, JsonView::Str(message)))
}

/// A response that reports an error.
pub fn error_body(message: String) -> (body: Json)
    ensures
        body@ == error_view(message@),
{
    let mut object = JsonObject::new();
    object.put("error", Json::Str(message));
    Json::Object(object)
}

/// What a request is told whose field or target is too long.
pub open spec fn qname_too_long(which: Seq<char>, max_length: nat) -> Seq<char> {
    which + " exceeds maximum length of "@ + decimal(max_length) + " characters"@
}

/// Why a request to annotate is refused.
pub open spec fn annotation_refusal(args: JsonView, max_length: nat) -> Option<Seq<char>> {
    let field = text_of(args, "field_qname"@);
    let target = text_of(args, "target_qname"@);
    if field.len() == 0 || target.len() == 0 {
        Some(
            "field_qname and target_qname are required. Example: annotate_fp_dispatch('Curl_handler.do_it', 'Curl_http')"@,
        )
    } else if byte_len(field) > max_length {
        Some(qname_too_long("field_qname"@, max_length))
    } else if byte_len(target) > max_length {
        Some(qname_too_long("target_qname"@, max_length))
    } else {
        None
    }
}

/// The names in a request to annotate.
pub struct AnnotationPlan {
    pub field_qname: String,
    pub target_qname: String,
}

fn length_error(which: &str, max_length: usize) -> (body: Json)
    ensures
        body@ == error_view(qname_too_long(which@, max_length as nat)),
{
    let mut message = which.to_owned();
    message.append(" exceeds maximum length of ");
    push_decimal(&mut message, max_length as u64);
    message.append(" characters");
    error_body(message)
}

/// Reads a request to annotate.
pub fn plan_annotation(args: &Json, max_length: usize) -> (plan: Result<AnnotationPlan, Json>)
    ensures
        match plan {
            Ok(p) => annotation_refusal(args@, max_length as nat) is None && p.field_qname@
                == text_of(args@, "field_qname"@) && p.target_qname@ == text_of(
                args@,
                "target_qname"@,
            ),
            Err(body) => annotation_refusal(args@, max_length as nat) matches Some(message)
                && body@ == error_view(message),
        },
{
    let field_qname = text_arg(args, "field_qname");
    let target_qname = text_arg(args, "target_qname");
    if field_qname.as_str().is_empty() || target_qname.as_str().is_empty() {
        return Err(
            error_body(
                "field_qname and target_qname are required. Example: annotate_fp_dispatch('Curl_handler.do_it', 'Curl_http')".to_owned(),
            ),
        );
    }
    if text_bytes(field_qname.as_str()) > max_length {
        return Err(length_error("field_qname", max_length));
    }
    if text_bytes(target_qname.as_str()) > max_length {
        return Err(length_error("target_qname", max_length));
    }
    Ok(AnnotationPlan { field_qname, target_qname })
}

/// Which end of a dispatch a symbol is.
#[derive(Clone, Copy, Debug, PartialEq, Eq, Structural)]
pub enum DispatchEnd {
    Field,
    Target,
}

/// The name of an end.
pub open spec fn end_name(end: DispatchEnd) -> Seq<char> {
    match end {
        DispatchEnd::Field => "Field"@,
        DispatchEnd::Target => "Target"@,
    }
}

/// A match of an ambiguous name, in short.
pub open spec fn short_match(candidate: ScoredCandidate) -> Seq<char> {
    candidate.file_path@ + "::"@ + decimal(candidate.line as nat) + " ["@ + candidate.kind@ + "]"@
}

/// The first matches of an ambiguous name, in short.
pub open spec fn short_matches(candidates: Seq<ScoredCandidate>) -> Seq<Seq<char>> {
    Seq::new(
        if candidates.len() < MAX_LISTED_MATCHES {
            candidates.len()
        } else {
            MAX_LISTED_MATCHES as nat
        },
        |i: int| short_match(candidates[i]),
    )
}

/// Why a symbol cannot be an end of a dispatch.
pub open spec fn end_refusal(
    end: DispatchEnd,
    resolution: Result<SymbolResolution, String>,
    qname: Seq<char>,
    guidance: Seq<char>,
) -> Option<Seq<char>> {
    match resolution {
        Ok(SymbolResolution::Single { .. }) => None,
        Ok(SymbolResolution::Ambiguous { candidates, .. }) => Some(
            end_name(end) + " symbol '"@ + qname + "' is ambiguous ("@ + decimal(candidates@.len())
                + " matches: "@ + joined(short_matches(candidates@), ", "@)
                + "). Use a SymbolSelector object from search results (symbol_ref field)."@,
        ),
        Ok(SymbolResolution::NotFound { .. }) => Some("Symbol not found: "@ + qname + guidance),
        Err(e) => Some(e@),
    }
}

fn match_texts(candidates: &Vec<ScoredCandidate>) -> (texts: Vec<String>)
    ensures
        strings_view(texts@) == short_matches(candidates@),
{
    let mut texts: Vec<String> = Vec::new();
    let mut i: usize = 0;
    while i < candidates.len() && i < MAX_LISTED_MATCHES
        invariant
            i <= candidates@.len(),
            i <= MAX_LISTED_MATCHES,
            texts@.len() == i,
            forall|j: int| 0 <= j < i ==> (#[trigger] texts@[j])@ == short_match(candidates@[j]),
        decreases candidates@.len() - i,
    {
        let mut text = candidates[i].file_path.clone();
        text.append("::");
        push_decimal(&mut text, candidates[i].line as u64);
        text.append(" [");
        text.append(candidates[i].kind.as_str());
        text.append("]");
        texts.push(text);
        i = i + 1;
    }
    proof {
        assert(strings_view(texts@) =~= short_matches(candidates@));
    }
    texts
}

/// The symbol that is an end of a dispatch.
pub fn dispatch_end(
    end: DispatchEnd,
    resolution: Result<SymbolResolution, String>,
    qname: &str,
    guidance: &str,
) -> (found: Result<SymbolId, Json>)
    ensures
        match found {
            Ok(id) => resolution matches Ok(SymbolResolution::Single { symbol_id, .. }) && symbol_id
                == id,
            Err(body) => end_refusal(end, resolution, qname@, guidance@) matches Some(message)
                && body@ == error_view(message),
        },
{
    match resolution {
        Ok(SymbolResolution::Single { symbol_id, .. }) => Ok(symbol_id),
        Ok(SymbolResolution::Ambiguous { candidates, .. }) => {
            let mut message = match end {
                DispatchEnd::Field => "Field".to_owned(),
                DispatchEnd::Target => "Target".to_owned(),
            };
            message.append(" symbol '");
            message.append(qname);
            message.append("' is ambiguous (");
            push_decimal(&mut message, candidates.len() as u64);
            message.append(" matches: ");
            message.append(join_texts(&match_texts(&candidates), ", ").as_str());
            message.append(
                "). Use a SymbolSelector object from search results (symbol_ref field).",
            );
            Err(error_body(message))
        },
        Ok(SymbolResolution::NotFound { .. }) => {
            let mut message = "Symbol not found: ".to_owned();
            message.append(qname);
            message.append(guidance);
            Err(error_body(message))
        },
        Err(e) => Err(error_body(e)),
    }
}

/// The languages that are told apart here.
#[derive(Clone, Copy, Debug, PartialEq, Eq, Structural)]
pub enum Language {
    C,
    Cpp,
    TypeScript,
    JavaScript,
    Python,
    Java,
    Rust,
    CSharp,
    Go,
    Ruby,
    Php,
    Kotlin,
    ArkTS,
    Cangjie,
    Other,
}

/// What a language is called in an explanation.
pub open spec fn spoken_name(language: Language) -> Seq<char> {
    match language {
        Language::TypeScript => "JavaScript/TypeScript"@,
        Language::JavaScript => "JavaScript/TypeScript"@,
        Language::Python => "Python"@,
        Language::Java => "Java"@,
        Language::Rust => "Rust"@,
        Language::CSharp => "C#"@,
        Language::Go => "Go"@,
        Language::Ruby => "Ruby"@,
        Language::Php => "PHP"@,
        Language::Kotlin => "Kotlin"@,
        Language::ArkTS => "ArkTS"@,
        Language::Cangjie => "Cangjie"@,
        _ => "this language"@,
    }
}

fn spoken_text(language: Language) -> (name: &'static str)
    ensures
        name@ == spoken_name(language),
{
    match language {
        Language::TypeScript => "JavaScript/TypeScript",
        Language::JavaScript => "JavaScript/TypeScript",
        Language::Python => "Python",
        Language::Java => "Java",
        Language::Rust => "Rust",
        Language::CSharp => "C#",
        Language::Go => "Go",
        Language::Ruby => "Ruby",
        Language::Php => "PHP",
        Language::Kotlin => "Kotlin",
        Language::ArkTS => "ArkTS",
        Language::Cangjie => "Cangjie",
        _ => "this language",
    }
}

/// What is stored of a symbol at an end of a dispatch.
pub struct DispatchSymbol {
    pub language: Language,
    pub language_name: String,
    pub kind: SymbolKind,
    pub kind_name: String,
}

/// Why a symbol cannot be the field of a dispatch: it must be a field, in C or C++.
pub open spec fn field_refusal(field: DispatchSymbol, qname: Seq<char>) -> Option<Seq<char>> {
    if !(field.language is C || field.language is Cpp) {
        Some(
            "Function-pointer dispatch annotations are only applicable to C and C++. Symbol '"@
                + qname + "' is a '"@ + field.kind_name@ + "' in "@ + field.language_name@ + " — "@
                + spoken_name(field.language)
                + " uses dynamic dispatch (virtual tables, reflection, or prototype chains) rather than function-pointer tables. Atlas detects these through static analysis automatically; no manual annotation is needed."@,
        )
    } else if !(field.kind is Field) {
        Some(
            "Expected a Field symbol for the function pointer, but '"@ + qname + "' is a '"@
                + field.kind_name@
                + "'. Function-pointer dispatch annotations require a struct field (function pointer), not a "@
                + field.kind_name@
                + ". Example: annotate_fp_dispatch('MyStruct.handler', 'target_fn')"@,
        )
    } else {
        None
    }
}

/// Why a symbol cannot be the target of a dispatch: it must be a function or method.
pub open spec fn target_refusal(target: DispatchSymbol, qname: Seq<char>) -> Option<Seq<char>> {
    if !(target.kind is Function || target.kind is Method) {
        Some(
            "Expected a Function or Method symbol as the target, but '"@ + qname + "' is a '"@
                + target.kind_name@
                + "'. Function-pointer dispatch annotations map a struct field to a concrete function implementation."@,
        )
    } else {
        None
    }
}

/// Why a dispatch is refused. What is not stored is not checked.
pub open spec fn dispatch_refusal(
    field: Option<DispatchSymbol>,
    target: Option<DispatchSymbol>,
    field_qname: Seq<char>,
    target_qname: Seq<char>,
) -> Option<Seq<char>> {
    let first = match field {
        Some(f) => field_refusal(f, field_qname),
        None => None,
    };
    match first {
        Some(message) => Some(message),
        None => match target {
            Some(t) => target_refusal(t, target_qname),
            None => None,
        },
    }
}

fn check_field(field: &DispatchSymbol, qname: &str) -> (refusal: Option<String>)
    ensures
        crate::text::string_view(refusal) == field_refusal(*field, qname@),
{
    let dispatches = match field.language {
        Language::C => true,
        Language::Cpp => true,
        _ => false,
    };
    if !dispatches {
        let mut message =
            "Function-pointer dispatch annotations are only applicable to C and C++. Symbol '".to_owned();
        message.append(qname);
        message.append("' is a '");
        message.append(field.kind_name.as_str());
        message.append("' in ");
        message.append(field.language_name.as_str());
        message.append(" — ");
        message.append(spoken_text(field.language));
        message.append(
            " uses dynamic dispatch (virtual tables, reflection, or prototype chains) rather than function-pointer tables. Atlas detects these through static analysis automatically; no manual annotation is needed.",
        );
        return Some(message);
    }
    match field.kind {
        SymbolKind::Field => None,
        _ => {
            let mut message =
                "Expected a Field symbol for the function pointer, but '".to_owned();
            message.append(qname);
            message.append("' is a '");
            message.append(field.kind_name.as_str());
            message.append(
                "'. Function-pointer dispatch annotations require a struct field (function pointer), not a ",
            );
            message.append(field.kind_name.as_str());
            message.append(". Example: annotate_fp_dispatch('MyStruct.handler', 'target_fn')");
            Some(message)
        },
    }
}

fn check_target(target: &DispatchSymbol, qname: &str) -> (refusal: Option<String>)
    ensures
        crate::text::string_view(refusal) == target_refusal(*target, qname@),
{
    match target.kind {
        SymbolKind::Function => None,
        SymbolKind::Method => None,
        _ => {
            let mut message =
                "Expected a Function or Method symbol as the target, but '".to_owned();
            message.append(qname);
            message.append("' is a '");
            message.append(target.kind_name.as_str());
            message.append(
                "'. Function-pointer dispatch annotations map a struct field to a concrete function implementation.",
            );
            Some(message)
        },
    }
}

/// Checks that a field and a target can be the ends of a dispatch.
pub fn check_dispatch(
    field: &Option<DispatchSymbol>,
    target: &Option<DispatchSymbol>,
    plan: &AnnotationPlan,
) -> (checked: Result<(), Json>)
    ensures
        match checked {
            Ok(_) => dispatch_refusal(
                *field,
                *target,
                plan.field_qname@,
                plan.target_qname@,
            ) is None,
            Err(body) => dispatch_refusal(
                *field,
                *target,
                plan.field_qname@,
                plan.target_qname@,
            ) matches Some(message) && body@ == error_view(message),
        },
{
    match field {
        Some(f) => match check_field(f, plan.field_qname.as_str()) {
            Some(message) => {
                return Err(error_body(message));
            },
            None => {},
        },
        None => {},
    }
    match target {
        Some(t) => match check_target(t, plan.target_qname.as_str()) {
            Some(message) => {
                return Err(error_body(message));
            },
            None => {},
        },
        None => {},
    }
    Ok(())
}

/// Whether a character separates the parts of a qualified name.
pub open spec fn separates(c: char) -> bool {
    c == '.' || c == ':'
}

/// A name without the separators at its end.
pub open spec fn without_separators(name: Seq<char>) -> Seq<char>
    decreases name.len(),
{
    if name.len() > 0 && separates(name.last()) {
        without_separators(name.drop_last())
    } else {
        name
    }
}

/// The part of a name behind its last separator.
pub open spec fn tail_part(name: Seq<char>) -> Seq<char>
    decreases name.len(),
{
    if name.len() == 0 || separates(name.last()) {
        Seq::empty()
    } else {
        tail_part(name.drop_last()).push(name.last())
    }
}

/// The last part of a qualified name that is not empty; the name, if there is none.
pub open spec fn last_part(name: Seq<char>) -> Seq<char> {
    if without_separators(name).len() == 0 {
        name
    } else {
        tail_part(without_separators(name))
    }
}

proof fn lemma_tail_part(name: Seq<char>, start: int)
    requires
        0 <= start <= name.len(),
        start > 0 ==> separates(name[start - 1]),
        forall|i: int| start <= i < name.len() ==> !separates(#[trigger] name[i]),
    ensures
        tail_part(name) == name.skip(start),
    decreases name.len(),
{
    if start < name.len() {
        let rest = name.drop_last();
        assert forall|i: int| start <= i < rest.len() implies !separates(#[trigger] rest[i]) by {
            assert(rest[i] == name[i]);
        }
        lemma_tail_part(rest, start);
        assert(name.skip(start) =~= rest.skip(start).push(name.last()));
    } else {
        assert(name.skip(start) =~= Seq::empty());
    }
}

/// The last part of a qualified name that is not empty.
pub fn field_name_of(qname: &str) -> (name: String)
    ensures
        name@ == last_part(qname@),
{
    let chars = to_chars(qname);
    let total: usize = chars.len();
    let mut end: usize = total;
    proof {
        assert(chars@.take(end as int) =~= chars@);
    }
    while end > 0 && (chars[end - 1] == '.' || chars[end - 1] == ':')
        invariant
            end <= chars@.len(),
            without_separators(chars@) == without_separators(chars@.take(end as int)),
        decreases end,
    {
        proof {
            assert(chars@.take(end as int).drop_last() =~= chars@.take(end - 1));
        }
        end = end - 1;
    }
    if end == 0 {
        proof {
            assert(chars@.take(0) =~= Seq::empty());
            assert(chars@.subrange(0, total as int) =~= chars@);
        }
        return from_chars(&chars, 0, total);
    }
    let mut start: usize = end;
    while start > 0 && !(chars[start - 1] == '.' || chars[start - 1] == ':')
        invariant
            start <= end <= chars@.len(),
            forall|i: int| start <= i < end ==> !separates(#[trigger] chars@[i]),
        decreases start,
    {
        start = start - 1;
    }
    proof {
        let whole = chars@.take(end as int);
        assert(without_separators(chars@) == whole);
        assert forall|i: int| start <= i < whole.len() implies !separates(#[trigger] whole[i]) by {
            assert(whole[i] == chars@[i]);
        }
        lemma_tail_part(whole, start as int);
        assert(whole.skip(start as int) =~= chars@.subrange(start as int, end as int));
    }
    from_chars(&chars, start, end)
}

/// The identifier of the annotation of a field.
pub open spec fn annotation_id_of(field_id: Seq<u8>, field_name: Seq<char>) -> Seq<char> {
    "fpa:"@ + digest_prefix(field_id, 8) + ":"@ + field_name
}

/// The identifier of the annotation of a field.
pub fn annotation_id(field_id: SymbolId, field_name: &str) -> (id: String)
    ensures
        id@ == annotation_id_of(field_id@, field_name@),
{
    let mut id = "fpa:".to_owned();
    id.append(digest_prefix_text(field_id.bytes.as_slice(), 8).as_str());
    id.append(":");
    id.append(field_name);
    id
}

/// What became of an annotation.
pub enum AnnotationOutcome {
    Created,
    /// It is stored, but its edge could not be made.
    NotMaterialized(String),
    /// It could not be stored.
    NotStored(String),
}

/// The response to a request to annotate.
pub open spec fn annotation_fields(
    outcome: AnnotationOutcome,
    id: Seq<char>,
    field_name: Seq<char>,
    field_qname: Seq<char>,
    target_qname: Seq<char>,
    confidence: JsonView,
) -> JsonView {
    match outcome {
        AnnotationOutcome::Created => JsonView::Object(
            no_fields().insert("annotation_id"@, JsonView::Str(id)).insert(
                "field_qname"@,
                JsonView::Str(field_qname),
            ).insert("field_name"@, JsonView::Str(field_name)).insert(
                "target_qname"@,
                JsonView::Str(target_qname),
            ).insert("confidence"@, confidence).insert("status"@, JsonView::Str("created"@)),
        ),
        AnnotationOutcome::NotMaterialized(e) => JsonView::Object(
            no_fields().insert(
                "error"@,
                JsonView::Str("Annotation stored but edge materialization failed: "@ + e@),
            ).insert("annotation_id"@, JsonView::Str(id)).insert(
                "field_qname"@,
                JsonView::Str(field_qname),
            ).insert("target_qname"@, JsonView::Str(target_qname)),
        ),
        AnnotationOutcome::NotStored(e) => error_view("Failed to store annotation: "@ + e@),
    }
}

/// The response to a request to annotate, and whether it is an error.
pub fn annotation_body(
    outcome: &AnnotationOutcome,
    id: &str,
    field_name: &str,
    plan: &AnnotationPlan,
    confidence: &Json,
) -> (reply: (Json, bool))
    ensures
        reply.0@ == annotation_fields(
            *outcome,
            id@,
            field_name@,
            plan.field_qname@,
            plan.target_qname@,
            confidence@,
        ),
        reply.1 == !(outcome is Created),
{
    match outcome {
        AnnotationOutcome::Created => {
            let mut object = JsonObject::new();
            object.put("annotation_id", Json::text(id));
            object.put("field_qname", Json::text(plan.field_qname.as_str()));
            object.put("field_name", Json::text(field_name));
            object.put("target_qname", Json::text(plan.target_qname.as_str()));
            object.put("confidence", confidence.clone());
            object.put("status", Json::text("created"));
            (Json::Object(object), false)
        },
        AnnotationOutcome::NotMaterialized(e) => {
            let mut message = "Annotation stored but edge materialization failed: ".to_owned();
            message.append(e.as_str());
            let mut object = JsonObject::new();
            object.put("error", Json::Str(message));
            object.put("annotation_id", Json::text(id));
            object.put("field_qname", Json::text(plan.field_qname.as_str()));
            object.put("target_qname", Json::text(plan.target_qname.as_str()));
            (Json::Object(object), true)
        },
        AnnotationOutcome::NotStored(e) => {
            let mut message = "Failed to store annotation: ".to_owned();
            message.append(e.as_str());
            (error_body(message), true)
        },
    }
}

/// A stored annotation, with the names of its symbols where they are stored.
pub struct StoredAnnotation {
    pub annotation_id: String,
    pub source_qname: Option<String>,
    pub field_name: String,
    pub target_qname: Option<String>,
    pub confidence: Json,
}

/// An annotation as it is listed.
pub open spec fn listed_annotation(annotation: StoredAnnotation) -> JsonView {
    JsonView::Object(
        no_fields().insert("annotation_id"@, JsonView::Str(annotation.annotation_id@)).insert(
            "source_qname"@,
            JsonView::Str(
                match annotation.source_qname {
                    Some(q) => q@,
                    None => annotation.field_name@,
                },
            ),
        ).insert("field_name"@, JsonView::Str(annotation.field_name@)).insert(
            "target_qname"@,
            JsonView::Str(
                match annotation.target_qname {
                    Some(q) => q@,
                    None => "?"@,
                },
            ),
        ).insert("confidence"@, annotation.confidence@),
    )
}

/// The list of annotations.
pub open spec fn annotations_fields(annotations: Seq<StoredAnnotation>) -> JsonView {
    JsonView::Object(
        no_fields().insert("count"@, JsonView::Unsigned(annotations.len() as u64)).insert(
            "annotations"@,
            JsonView::Array(
                Seq::new(annotations.len(), |i: int| listed_annotation(annotations[i])),
            ),
        ),
    )
}

/// What a request to list annotations is answered.
pub open spec fn list_reply(annotations: Result<Vec<StoredAnnotation>, String>) -> JsonView {
    match annotations {
        Ok(list) => annotations_fields(list@),
        Err(e) => error_view("Failed to list annotations: "@ + e@),
    }
}

/// The list of annotations, and whether it is an error.
pub fn list_annotations_body(annotations: &Result<Vec<StoredAnnotation>, String>) -> (reply: (
    Json,
    bool,
))
    ensures
        reply.0@ == list_reply(*annotations),
        reply.1 == annotations is Err,
{
    match annotations {
        Ok(list) => {
            let mut items: Vec<Json> = Vec::new();
            let mut i: usize = 0;
            while i < list.len()
                invariant
                    i <= list@.len(),
                    items@.len() == i,
                    forall|j: int|
                        0 <= j < i ==> (#[trigger] items@[j])@ == listed_annotation(list@[j]),
                decreases list@.len() - i,
            {
                let annotation = &list[i];
                let mut object = JsonObject::new();
                object.put("annotation_id", Json::text(annotation.annotation_id.as_str()));
                object.put(
                    "source_qname",
                    match &annotation.source_qname {
                        Some(q) => Json::text(q.as_str()),
                        None => Json::text(annotation.field_name.as_str()),
                    },
                );
                object.put("field_name", Json::text(annotation.field_name.as_str()));
                object.put(
                    "target_qname",
                    match &annotation.target_qname {
                        Some(q) => Json::text(q.as_str()),
                        None => Json::text("?"),
                    },
                );
                object.put("confidence", annotation.confidence.clone());
                items.push(Json::Object(object));
                i = i + 1;
            }
            proof {
                assert(items_view(items@) =~= Seq::new(
                    list@.len(),
                    |i: int| listed_annotation(list@[i]),
                ));
            }
            let mut object = JsonObject::new();
            object.put("count", Json::count(list.len()));
            object.put("annotations", Json::Array(items));
            (Json::Object(object), false)
        },
        Err(e) => {
            let mut message = "Failed to list annotations: ".to_owned();
            message.append(e.as_str());
            (error_body(message), true)
        },
    }
}

/// How a request names the annotation to delete.
pub enum AnnotationKey {
    Id(String),
    Field(String),
}

/// Whether a key is the one that the arguments give: an identifier goes before a
/// field.
pub open spec fn is_asked_key(key: AnnotationKey, args: JsonView) -> bool {
    let id = text_of(args, "annotation_id"@);
    let field = text_of(args, "field_qname"@);
    match key {
        AnnotationKey::Id(k) => id.len() > 0 && k@ == id,
        AnnotationKey::Field(k) => id.len() == 0 && field.len() > 0 && k@ == field,
    }
}

/// Reads a request to delete an annotation.
pub fn plan_annotation_deletion(args: &Json) -> (key: Result<AnnotationKey, Json>)
    ensures
        match key {
            Ok(k) => is_asked_key(k, args@),
            Err(body) => text_of(args@, "annotation_id"@).len() == 0 && text_of(
                args@,
                "field_qname"@,
            ).len() == 0 && body@ == error_view(
                "Either annotation_id or field_qname is required. Example: delete_fp_annotation(annotation_id='fpa:abc123:do_it') or delete_fp_annotation(field_qname='Curl_handler.do_it')"@,
            ),
        },
{
    let id = text_arg(args, "annotation_id");
    if !id.as_str().is_empty() {
        return Ok(AnnotationKey::Id(id));
    }
    let field = text_arg(args, "field_qname");
    if !field.as_str().is_empty() {
        return Ok(AnnotationKey::Field(field));
    }
    Err(
        error_body(
            "Either annotation_id or field_qname is required. Example: delete_fp_annotation(annotation_id='fpa:abc123:do_it') or delete_fp_annotation(field_qname='Curl_handler.do_it')".to_owned(),
        ),
    )
}

/// A response that reports that there is nothing to delete.
pub open spec fn nothing_there(message: Seq<char>) -> JsonView {
    JsonView::Object(
        no_fields().insert("status"@, JsonView::Str("not_found"@)).insert(
            "message"@,
            JsonView::Str(message),
        ),
    )
}

fn nothing_body(message: String) -> (body: Json)
    ensures
        body@ == nothing_there(message@),
{
    let mut object = JsonObject::new();
    object.put("status", Json::text("not_found"));
    object.put("message", Json::Str(message));
    Json::Object(object)
}

/// The identifier of the annotation of a field, from what the store holds.
pub fn annotation_of_field(
    stored: Result<Option<String>, String>,
    field_qname: &str,
) -> (id: Result<String, Json>)
    ensures
        match stored {
            Ok(Some(known)) => id == Ok::<String, Json>(known),
            Ok(None) => id matches Err(body) && body@ == nothing_there(
                "No annotation found for field '"@ + field_qname@ + "'"@,
            ),
            Err(e) => id matches Err(body) && body@ == error_view("Lookup error: "@ + e@),
        },
{
    match stored {
        Ok(Some(known)) => Ok(known),
        Ok(None) => {
            let mut message = "No annotation found for field '".to_owned();
            message.append(field_qname);
            message.append("'");
            Err(nothing_body(message))
        },
        Err(e) => {
            let mut message = "Lookup error: ".to_owned();
            message.append(e.as_str());
            Err(error_body(message))
        },
    }
}

/// What became of a deletion.
pub enum DeletionOutcome {
    Deleted,
    NothingThere,
    DeleteFailed(String),
    /// It is deleted, but its edge could not be removed.
    CleanupFailed(String),
    /// It is deleted, but the graph could not be made anew.
    RefreshFailed(String),
}

/// A piece of work that a deletion takes.
pub enum DeletionWork {
    /// To delete the annotation; the store answers whether it was there.
    Delete,
    /// To remove the edge that was made of it.
    Cleanup,
    /// To make the graph anew.
    Refresh,
}

/// What comes next in a deletion.
pub enum DeletionStep {
    Work(DeletionWork),
    End(DeletionOutcome),
}

/// What comes after a piece of work: only an annotation that was there is cleaned up
/// after, and what fails ends the deletion.
pub open spec fn next_deletion_step(
    work: DeletionWork,
    done: Result<bool, String>,
) -> DeletionStep {
    match (work, done) {
        (DeletionWork::Delete, Ok(true)) => DeletionStep::Work(DeletionWork::Cleanup),
        (DeletionWork::Delete, Ok(false)) => DeletionStep::End(DeletionOutcome::NothingThere),
        (DeletionWork::Delete, Err(e)) => DeletionStep::End(DeletionOutcome::DeleteFailed(e)),
        (DeletionWork::Cleanup, Ok(_)) => DeletionStep::Work(DeletionWork::Refresh),
        (DeletionWork::Cleanup, Err(e)) => DeletionStep::End(DeletionOutcome::CleanupFailed(e)),
        (DeletionWork::Refresh, Ok(_)) => DeletionStep::End(DeletionOutcome::Deleted),
        (DeletionWork::Refresh, Err(e)) => DeletionStep::End(DeletionOutcome::RefreshFailed(e)),
    }
}

/// What comes after a piece of work of a deletion.
pub fn deletion_step(work: DeletionWork, done: Result<bool, String>) -> (step: DeletionStep)
    ensures
        step == next_deletion_step(work, done),
{
    match (work, done) {
        (DeletionWork::Delete, Ok(true)) => DeletionStep::Work(DeletionWork::Cleanup),
        (DeletionWork::Delete, Ok(false)) => DeletionStep::End(DeletionOutcome::NothingThere),
        (DeletionWork::Delete, Err(e)) => DeletionStep::End(DeletionOutcome::DeleteFailed(e)),
        (DeletionWork::Cleanup, Ok(_)) => DeletionStep::Work(DeletionWork::Refresh),
        (DeletionWork::Cleanup, Err(e)) => DeletionStep::End(DeletionOutcome::CleanupFailed(e)),
        (DeletionWork::Refresh, Ok(_)) => DeletionStep::End(DeletionOutcome::Deleted),
        (DeletionWork::Refresh, Err(e)) => DeletionStep::End(DeletionOutcome::RefreshFailed(e)),
    }
}

/// The response to a request to delete an annotation.
pub open spec fn deletion_fields(outcome: DeletionOutcome, id: Seq<char>) -> JsonView {
    match outcome {
        DeletionOutcome::Deleted => JsonView::Object(
            no_fields().insert("status"@, JsonView::Str("deleted"@)).insert(
                "annotation_id"@,
                JsonView::Str(id),
            ),
        ),
        DeletionOutcome::NothingThere => nothing_there("No matching annotation found"@),
        DeletionOutcome::DeleteFailed(e) => error_view("Failed to delete annotation: "@ + e@),
        DeletionOutcome::CleanupFailed(e) => JsonView::Object(
            no_fields().insert(
                "error"@,
                JsonView::Str("Annotation deleted but edge cleanup failed: "@ + e@),
            ).insert("annotation_id"@, JsonView::Str(id)),
        ),
        DeletionOutcome::RefreshFailed(e) => JsonView::Object(
            no_fields().insert(
                "error"@,
                JsonView::Str("Failed to rebuild graph after annotation removal: "@ + e@),
            ).insert("annotation_id"@, JsonView::Str(id)),
        ),
    }
}

fn failed_deletion(start: &str, e: &str, id: &str) -> (body: Json)
    ensures
        body@ == JsonView::Object(
            no_fields().insert("error"@, JsonView::Str(start@ + e@)).insert(
                "annotation_id"@,
                JsonView::Str(id@),
            ),
        ),
{
    let mut message = start.to_owned();
    message.append(e);
    let mut object = JsonObject::new();
    object.put("error", Json::Str(message));
    object.put("annotation_id", Json::text(id));
    Json::Object(object)
}

/// The response to a request to delete an annotation, and whether it is an error.
pub fn deletion_body(outcome: &DeletionOutcome, id: &str) -> (reply: (Json, bool))
    ensures
        reply.0@ == deletion_fields(*outcome, id@),
        reply.1 == !(outcome is Deleted),
{
    match outcome {
        DeletionOutcome::Deleted => {
            let mut object = JsonObject::new();
            object.put("status", Json::text("deleted"));
            object.put("annotation_id", Json::text(id));
            (Json::Object(object), false)
        },
        DeletionOutcome::NothingThere => (
            nothing_body("No matching annotation found".to_owned()),
            true,
        ),
        DeletionOutcome::DeleteFailed(e) => {
            let mut message = "Failed to delete annotation: ".to_owned();
            message.append(e.as_str());
            (error_body(message), true)
        },
        DeletionOutcome::CleanupFailed(e) => (
            failed_deletion("Annotation deleted but edge cleanup failed: ", e.as_str(), id),
            true,
        ),
        DeletionOutcome::RefreshFailed(e) => (
            failed_deletion("Failed to rebuild graph after annotation removal: ", e.as_str(), id),
            true,
        ),
    }
}

/// Whether a store of annotations, by their identifiers, deletes one: it answers
/// whether it held the annotation, and holds all the others and not that one.
pub open spec fn deletes(
    stored: Set<Seq<char>>,
    id: Seq<char>,
    answer: Result<bool, String>,
    left: Set<Seq<char>>,
) -> bool {
    left == stored.remove(id) && (answer matches Ok(there) && there == stored.contains(id))
}

/// With a store that deletes what it is told to, and cleanup and refresh that succeed,
/// an annotation is reported as deleted once, and is then gone, with all others in
/// place; the same request again is told that there is nothing.
pub proof fn law_annotation_is_deleted_once(
    stored: Set<Seq<char>>,
    id: Seq<char>,
    first: Result<bool, String>,
    left: Set<Seq<char>>,
    cleaned: bool,
    refreshed: bool,
    again: Result<bool, String>,
    left_again: Set<Seq<char>>,
)
    requires
        stored.contains(id),
        deletes(stored, id, first, left),
        deletes(left, id, again, left_again),
    ensures
        next_deletion_step(DeletionWork::Delete, first) == DeletionStep::Work(
            DeletionWork::Cleanup,
        ),
        next_deletion_step(DeletionWork::Cleanup, Ok(cleaned)) == DeletionStep::Work(
            DeletionWork::Refresh,
        ),
        next_deletion_step(DeletionWork::Refresh, Ok(refreshed)) == DeletionStep::End(
            DeletionOutcome::Deleted,
        ),
        deletion_fields(DeletionOutcome::Deleted, id).text_field("status"@) == Some("deleted"@),
        deletion_fields(DeletionOutcome::Deleted, id).text_field("annotation_id"@) == Some(id),
        !left.contains(id),
        forall|other: Seq<char>|
            other != id ==> left.contains(other) == #[trigger] stored.contains(other),
        next_deletion_step(DeletionWork::Delete, again) == DeletionStep::End(
            DeletionOutcome::NothingThere,
        ),
        deletion_fields(DeletionOutcome::NothingThere, id).text_field("status"@) == Some(
            "not_found"@,
        ),
        left_again == left,
{
    reveal_strlit("status");
    reveal_strlit("annotation_id");
    reveal_strlit("message");
    assert("status"@.len() != "annotation_id"@.len());
    assert("status"@.len() != "message"@.len());
}

/// Annotations hold in C and C++ only, from a field to a function or method.
pub proof fn law_only_field_dispatches_are_accepted(
    field: DispatchSymbol,
    target: DispatchSymbol,
    field_qname: Seq<char>,
    target_qname: Seq<char>,
)
    ensures
        dispatch_refusal(Some(field), Some(target), field_qname, target_qname) is None <==> (
        field.language is C || field.language is Cpp) && field.kind is Field && (
        target.kind is Function || target.kind is Method),
{
}

/// The name of a field holds no separator, unless the qualified name is made of
/// separators.
pub proof fn law_field_name_is_one_part(name: Seq<char>)
    ensures
        without_separators(name).len() > 0 ==> last_part(name).len() > 0 && forall|i: int|
            0 <= i < last_part(name).len() ==> !separates(#[trigger] last_part(name)[i]),
{
    lemma_stripped_end(name);
    if without_separators(name).len() > 0 {
        lemma_tail_has_no_separator(without_separators(name));
    }
}

proof fn lemma_stripped_end(name: Seq<char>)
    ensures
        without_separators(name).len() > 0 ==> !separates(without_separators(name).last()),
    decreases name.len(),
{
    if name.len() > 0 && separates(name.last()) {
        lemma_stripped_end(name.drop_last());
    }
}

proof fn lemma_tail_has_no_separator(name: Seq<char>)
    ensures
        forall|i: int| 0 <= i < tail_part(name).len() ==> !separates(#[trigger] tail_part(name)[i]),
    decreases name.len(),
{
    if name.len() > 0 && !separates(name.last()) {
        lemma_tail_has_no_separator(name.drop_last());
        let before = tail_part(name.drop_last());
        assert forall|i: int| 0 <= i < tail_part(name).len() implies !separates(
            #[trigger] tail_part(name)[i],
        ) by {
            if i < before.len() {
                assert(tail_part(name)[i] == before[i]);
            }
        }
    }
}

proof fn lemma_tail_is_a_suffix(name: Seq<char>)
    ensures
        tail_part(name).len() <= name.len(),
        tail_part(name) == name.skip(name.len() - tail_part(name).len()),
        tail_part(name).len() < name.len() ==> separates(
            name[name.len() - tail_part(name).len() - 1],
        ),
    decreases name.len(),
{
    if name.len() > 0 && !separates(name.last()) {
        lemma_tail_is_a_suffix(name.drop_last());
        let before = tail_part(name.drop_last());
        assert(tail_part(name) =~= name.skip(name.len() - tail_part(name).len())) by {
            assert forall|i: int| 0 <= i < before.len() implies before[i] == #[trigger] name[
                name.len() - before.len() - 1 + i] by {
                assert(before[i] == name.drop_last().skip(
                    name.drop_last().len() - before.len(),
                )[i]);
            }
        }
    } else {
        assert(tail_part(name) =~= name.skip(name.len() as int));
    }
}

proof fn lemma_without_separators_is_a_prefix(name: Seq<char>)
    ensures
        without_separators(name).len() <= name.len(),
        without_separators(name) == name.take(without_separators(name).len() as int),
        forall|i: int|
            without_separators(name).len() <= i < name.len() ==> separates(#[trigger] name[i]),
    decreases name.len(),
{
    if name.len() > 0 && separates(name.last()) {
        let rest = name.drop_last();
        lemma_without_separators_is_a_prefix(rest);
        assert(rest.take(without_separators(name).len() as int) =~= name.take(
            without_separators(name).len() as int,
        ));
        assert forall|i: int| without_separators(name).len() <= i < name.len() implies separates(
            #[trigger] name[i],
        ) by {
            if i < rest.len() {
                assert(rest[i] == name[i]);
            }
        }
    } else {
        assert(name.take(name.len() as int) =~= name);
    }
}

/// The name of a field stands in the qualified name, at its start or behind a separator,
/// with nothing but separators after it.
pub proof fn law_field_name_is_the_last_part(name: Seq<char>)
    requires
        exists|i: int| 0 <= i < name.len() && !separates(#[trigger] name[i]),
    ensures
        exists|start: int|
            #![trigger name.skip(start)]
            0 <= start && start + last_part(name).len() <= name.len() && last_part(name)
                == name.subrange(start, start + last_part(name).len()) && (start == 0 || separates(
                name[start - 1],
            )) && forall|i: int|
                start + last_part(name).len() <= i < name.len() ==> separates(#[trigger] name[i]),
{
    let kept = without_separators(name);
    lemma_without_separators_is_a_prefix(name);
    let at = choose|i: int| 0 <= i < name.len() && !separates(#[trigger] name[i]);
    assert(at < kept.len());
    lemma_tail_is_a_suffix(kept);
    let start = kept.len() - tail_part(kept).len();
    assert(last_part(name) == tail_part(kept));
    assert(last_part(name) =~= name.subrange(start, start + last_part(name).len())) by {
        assert(kept.skip(start) =~= name.subrange(start, kept.len() as int));
    }
    if start > 0 {
        assert(kept[start - 1] == name[start - 1]);
    }
    let _rest = name.skip(start);
}

/// Whether a listed value tells a stored annotation. A source without a name is told by
/// the field, and a target without a name by a question mark.
pub open spec fn tells_annotation(listed: JsonView, annotation: StoredAnnotation) -> bool {
    &&& listed.text_field("annotation_id"@) == Some(annotation.annotation_id@)
    &&& listed.text_field("field_name"@) == Some(annotation.field_name@)
    &&& listed.field("confidence"@) == Some(annotation.confidence@)
    &&& listed.text_field("source_qname"@) == Some(
        if annotation.source_qname is Some {
            annotation.source_qname->0@
        } else {
            annotation.field_name@
        },
    )
    &&& listed.text_field("target_qname"@) == Some(
        if annotation.target_qname is Some {
            annotation.target_qname->0@
        } else {
            "?"@
        },
    )
}

/// Every stored annotation is listed, in order, and they are counted; a failure is told
/// instead.
pub proof fn law_every_annotation_is_listed(annotations: Result<Vec<StoredAnnotation>, String>)
    ensures
        ({
            let body = list_reply(annotations);
            match annotations {
                Ok(stored) => {
                    &&& body.unsigned_field("count"@) == Some(stored@.len() as u64)
                    &&& body.field("annotations"@) matches Some(JsonView::Array(listed))
                        && listed.len() == stored@.len() && forall|i: int|
                        0 <= i < listed.len() ==> tells_annotation(
                            #[trigger] listed[i],
                            stored@[i],
                        )
                },
                Err(e) => body.text_field("error"@) matches Some(message) && e@.is_suffix_of(
                    message,
                ),
            }
        }),
{
    reveal_strlit("count");
    reveal_strlit("annotations");
    reveal_strlit("annotation_id");
    reveal_strlit("source_qname");
    reveal_strlit("field_name");
    reveal_strlit("target_qname");
    reveal_strlit("confidence");
    assert("count"@.len() != "annotations"@.len());
    assert("annotation_id"@.len() != "source_qname"@.len());
    assert("annotation_id"@.len() != "field_name"@.len());
    assert("annotation_id"@.len() != "target_qname"@.len());
    assert("annotation_id"@.len() != "confidence"@.len());
    assert("source_qname"@.len() != "field_name"@.len());
    assert("source_qname"@[0] != "target_qname"@[0]);
    assert("source_qname"@.len() != "confidence"@.len());
    assert("field_name"@.len() != "target_qname"@.len());
    assert("field_name"@[0] != "confidence"@[0]);
    assert("target_qname"@.len() != "confidence"@.len());
    match annotations {
        Ok(stored) => {
            let body = list_reply(annotations);
            if let Some(JsonView::Array(listed)) = body.field("annotations"@) {
                assert forall|i: int| 0 <= i < listed.len() implies tells_annotation(
                    #[trigger] listed[i],
                    stored@[i],
                ) by {
                    assert(listed[i] == listed_annotation(stored@[i]));
                }
            }
        },
        Err(e) => {
            let message = "Failed to list annotations: "@ + e@;
            assert(message.subrange(message.len() - e@.len(), message.len() as int) =~= e@);
        },
    }
}

/// The reply to a request to annotate: what was created, or what became of the failure;
/// an annotation that is stored without its edge keeps its identifier.
pub proof fn law_annotation_is_answered(
    outcome: AnnotationOutcome,
    id: Seq<char>,
    field_name: Seq<char>,
    field_qname: Seq<char>,
    target_qname: Seq<char>,
    confidence: JsonView,
)
    ensures
        ({
            let body = annotation_fields(
                outcome,
                id,
                field_name,
                field_qname,
                target_qname,
                confidence,
            );
            &&& body.field("error"@) is None <==> outcome is Created
            &&& !(outcome is NotStored) ==> body.text_field("annotation_id"@) == Some(id)
                && body.text_field("field_qname"@) == Some(field_qname) && body.text_field(
                "target_qname"@,
            ) == Some(target_qname)
            &&& outcome is NotStored ==> body.field("annotation_id"@) is None
            &&& outcome is Created ==> body.text_field("field_name"@) == Some(field_name)
                && body.field("confidence"@) == Some(confidence) && body.text_field("status"@)
                == Some("created"@)
        }),
{
    reveal_strlit("annotation_id");
    reveal_strlit("field_qname");
    reveal_strlit("field_name");
    reveal_strlit("target_qname");
    reveal_strlit("confidence");
    reveal_strlit("status");
    reveal_strlit("error");
    assert("annotation_id"@.len() != "field_qname"@.len());
    assert("annotation_id"@.len() != "field_name"@.len());
    assert("annotation_id"@.len() != "target_qname"@.len());
    assert("annotation_id"@.len() != "confidence"@.len());
    assert("annotation_id"@.len() != "status"@.len());
    assert("annotation_id"@.len() != "error"@.len());
    assert("field_qname"@.len() != "field_name"@.len());
    assert("field_qname"@.len() != "target_qname"@.len());
    assert("field_qname"@.len() != "confidence"@.len());
    assert("field_qname"@.len() != "status"@.len());
    assert("field_qname"@.len() != "error"@.len());
    assert("field_name"@.len() != "target_qname"@.len());
    assert("field_name"@[0] != "confidence"@[0]);
    assert("field_name"@.len() != "status"@.len());
    assert("field_name"@.len() != "error"@.len());
    assert("target_qname"@.len() != "confidence"@.len());
    assert("target_qname"@.len() != "status"@.len());
    assert("target_qname"@.len() != "error"@.len());
    assert("confidence"@.len() != "status"@.len());
    assert("confidence"@.len() != "error"@.len());
    assert("status"@.len() != "error"@.len());
}

/// The first matches of an ambiguous name are told, in order, five at most, each by its own
/// file, line and kind.
pub proof fn law_first_matches_are_told(candidates: Seq<ScoredCandidate>)
    ensures
        ({
            let told = short_matches(candidates);
            &&& told.len() == if candidates.len() < MAX_LISTED_MATCHES {
                candidates.len() as int
            } else {
                MAX_LISTED_MATCHES as int
            }
            &&& forall|i: int|
                0 <= i < told.len() ==> candidates[i].file_path@.is_prefix_of(#[trigger] told[i])
                    && (" ["@ + candidates[i].kind@ + "]"@).is_suffix_of(told[i])
        }),
{
    let told = short_matches(candidates);
    assert forall|i: int| 0 <= i < told.len() implies candidates[i].file_path@.is_prefix_of(
        #[trigger] told[i],
    ) && (" ["@ + candidates[i].kind@ + "]"@).is_suffix_of(told[i]) by {
        let c = candidates[i];
        let end = " ["@ + c.kind@ + "]"@;
        let start = c.file_path@ + "::"@ + decimal(c.line as nat);
        assert(told[i] =~= start + end);
        assert(told[i].subrange(told[i].len() - end.len(), told[i].len() as int) =~= end);
        assert(told[i].subrange(0, c.file_path@.len() as int) =~= c.file_path@);
    }
}

/// A request to annotate is accepted exactly where it names a field and a target, neither
/// of them too long.
pub proof fn law_readable_annotations_are_accepted(args: JsonView, max_length: nat)
    ensures
        annotation_refusal(args, max_length) is None <==> text_of(args, "field_qname"@).len() > 0
            && text_of(args, "target_qname"@).len() > 0 && byte_len(text_of(args, "field_qname"@))
            <= max_length && byte_len(text_of(args, "target_qname"@)) <= max_length,
{
}

/// An end of a dispatch is accepted exactly where its name resolves to one symbol; an
/// ambiguous name is told with the number of its matches and the first of them.
pub proof fn law_ends_must_be_unique(
    end: DispatchEnd,
    resolution: Result<SymbolResolution, String>,
    qname: Seq<char>,
    guidance: Seq<char>,
)
    ensures
        end_refusal(end, resolution, qname, guidance) is None <==> (resolution matches Ok(found)
            && found is Single),
        resolution matches Err(e) ==> end_refusal(end, resolution, qname, guidance) == Some(e@),
        resolution matches Ok(SymbolResolution::NotFound { .. }) ==> (end_refusal(
            end,
            resolution,
            qname,
            guidance,
        ) matches Some(message) && guidance.is_suffix_of(message) && crate::text::holds_text(
            message,
            qname,
        )),
        resolution matches Ok(SymbolResolution::Ambiguous { candidates, .. }) ==> (end_refusal(
            end,
            resolution,
            qname,
            guidance,
        ) matches Some(message) && crate::text::holds_text(
            message,
            decimal(candidates@.len()) + " matches: "@ + joined(short_matches(candidates@), ", "@),
        ) && crate::text::holds_text(message, qname)),
{
    match resolution {
        Ok(SymbolResolution::Ambiguous { candidates, .. }) => {
            let told = decimal(candidates@.len()) + " matches: "@ + joined(
                short_matches(candidates@),
                ", "@,
            );
            let start = end_name(end) + " symbol '"@;
            let middle = "' is ambiguous ("@;
            let last =
                "). Use a SymbolSelector object from search results (symbol_ref field)."@;
            let message = end_refusal(end, resolution, qname, guidance)->Some_0;
            assert(message =~= start + qname + middle + told + last);
            crate::text::law_text_holds_its_parts(start + qname + middle, told, last);
            crate::text::law_text_holds_its_parts(start, qname, middle + told + last);
            assert(message =~= start + qname + (middle + told + last));
        },
        Ok(SymbolResolution::NotFound { .. }) => {
            let message = end_refusal(end, resolution, qname, guidance)->Some_0;
            assert(message.subrange(message.len() - guidance.len(), message.len() as int)
                =~= guidance);
            crate::text::law_text_holds_its_parts("Symbol not found: "@, qname, guidance);
        },
        _ => {},
    }
}

/// An annotation is deleted by its identifier where one is given, and by its field
/// otherwise.
pub proof fn law_identifiers_go_before_fields(key: AnnotationKey, args: JsonView)
    requires
        is_asked_key(key, args),
    ensures
        key is Id <==> text_of(args, "annotation_id"@).len() > 0,
        key matches AnnotationKey::Id(id) ==> args.text_field("annotation_id"@) == Some(id@),
        key matches AnnotationKey::Field(name) ==> args.text_field("field_qname"@) == Some(name@)
            && name@.len() > 0,
{
}

/// The identifier of an annotation starts with its kind and ends with the name of its field.
pub proof fn law_annotation_identifier_ends_with_the_field(
    field_id: Seq<u8>,
    field_name: Seq<char>,
)
    ensures
        "fpa:"@.is_prefix_of(annotation_id_of(field_id, field_name)),
        (":"@ + field_name).is_suffix_of(annotation_id_of(field_id, field_name)),
        crate::text::holds_text(
            annotation_id_of(field_id, field_name),
            digest_prefix(field_id, 8),
        ),
{
    let id = annotation_id_of(field_id, field_name);
    let end = ":"@ + field_name;
    assert(id.subrange(0, "fpa:"@.len() as int) =~= "fpa:"@);
    assert(id.subrange(id.len() - end.len(), id.len() as int) =~= end);
    crate::text::law_text_holds_its_parts("fpa:"@, digest_prefix(field_id, 8), end);
    assert(id =~= "fpa:"@ + digest_prefix(field_id, 8) + end);
}

/// The parts of a qualified name are separated by dots and colons, and by nothing else.
pub proof fn law_dots_and_colons_separate(c: char)
    ensures
        separates(c) <==> c as int == 0x2e || c as int == 0x3a,
{
}

/// A deletion is answered with what became of it: everything that touched the annotation
/// names it, and every failure tells what failed.
pub proof fn law_deletion_is_answered(outcome: DeletionOutcome, id: Seq<char>)
    ensures
        ({
            let body = deletion_fields(outcome, id);
            match outcome {
                DeletionOutcome::Deleted => body.text_field("annotation_id"@) == Some(id)
                    && body.field("error"@) is None,
                DeletionOutcome::NothingThere => body.text_field("status"@) == Some("not_found"@)
                    && body.text_field("message"@) == Some("No matching annotation found"@)
                    && body.field("error"@) is None,
                DeletionOutcome::DeleteFailed(e) => body.text_field("error"@) matches Some(message)
                    && e@.is_suffix_of(message),
                DeletionOutcome::CleanupFailed(e) => body.text_field("annotation_id"@) == Some(id)
                    && (body.text_field("error"@) matches Some(message) && e@.is_suffix_of(
                    message,
                )),
                DeletionOutcome::RefreshFailed(e) => body.text_field("annotation_id"@) == Some(id)
                    && (body.text_field("error"@) matches Some(message) && e@.is_suffix_of(
                    message,
                )),
            }
        }),
{
    reveal_strlit("annotation_id");
    reveal_strlit("error");
    reveal_strlit("status");
    reveal_strlit("message");
    assert("annotation_id"@.len() != "error"@.len());
    assert("annotation_id"@.len() != "status"@.len());
    assert("annotation_id"@.len() != "message"@.len());
    assert("error"@.len() != "status"@.len());
    assert("error"@.len() != "message"@.len());
    assert("status"@.len() != "message"@.len());
    let body = deletion_fields(outcome, id);
    if let Some(message) = body.text_field("error"@) {
        match outcome {
            DeletionOutcome::DeleteFailed(e) => {
                assert(message.subrange(message.len() - e@.len(), message.len() as int) =~= e@);
            },
            DeletionOutcome::CleanupFailed(e) => {
                assert(message.subrange(message.len() - e@.len(), message.len() as int) =~= e@);
            },
            DeletionOutcome::RefreshFailed(e) => {
                assert(message.subrange(message.len() - e@.len(), message.len() as int) =~= e@);
            },
            _ => {},
        }
    }
}

} // verus!
