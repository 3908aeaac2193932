//! Domain rules: which functions allocate, free and clean up.

use vstd::prelude::*;
use vstd::string::*;

use crate::json::{items_view, no_fields, Json, JsonObject, JsonView};
use crate::text::{same_text, string_view};
use crate::tools::args::{text_arg, text_of};

verus! {

/// A rule that a request declares.
pub struct RulePlan {
    pub language: String,
    pub rule_kind: String,
    pub pattern: String,
}

/// Whether a kind of rule is known.
pub open spec fn is_rule_kind(kind: Seq<char>) -> bool {
    kind == "free_fn"@ || kind == "alloc_fn"@ || kind == "owned_pattern"@ || kind
        == "cleanup_fn"@
}

/// Why a rule is refused.
pub open spec fn rule_refusal(args: JsonView) -> Option<Seq<char>> {
    let kind = text_of(args, "rule_kind"@);
    let pattern = text_of(args, "pattern"@);
    if kind.len() == 0 || pattern.len() == 0 {
        Some("Missing rule_kind or pattern"@)
    } else if !is_rule_kind(kind) {
        Some(
            "Invalid rule_kind '"@ + kind
                + "'. Must be one of: free_fn, alloc_fn, owned_pattern, cleanup_fn"@,
        )
    } else {
        None
    }
}

/// The language of a rule: C, where none is named.
pub open spec fn rule_language(args: JsonView) -> Seq<char> {
    if text_of(args, "language"@).len() == 0 {
        "c"@
    } else {
        text_of(args, "language"@)
    }
}

/// Reads a request that declares a rule.
pub fn plan_rule(args: &Json) -> (plan: Result<RulePlan, String>)
    ensures
        match plan {
            Ok(p) => rule_refusal(args@) is None && p.language@ == rule_language(args@)
                && p.rule_kind@ == text_of(args@, "rule_kind"@) && p.pattern@ == text_of(
                args@,
                "pattern"@,
            ),
            Err(e) => rule_refusal(args@) == Some(e@),
        },
{
    let named = text_arg(args, "language");
    let rule_kind = text_arg(args, "rule_kind");
    let pattern = text_arg(args, "pattern");
    if rule_kind.as_str().is_empty() || pattern.as_str().is_empty() {
        return Err("Missing rule_kind or pattern".to_owned());
    }
    let known = same_text(rule_kind.as_str(), "free_fn") || same_text(
        rule_kind.as_str(),
        "alloc_fn",
    ) || same_text(rule_kind.as_str(), "owned_pattern") || same_text(
        rule_kind.as_str(),
        "cleanup_fn",
    );
    if !known {
        let mut message = "Invalid rule_kind '".to_owned();
        message.append(rule_kind.as_str());
        message.append("'. Must be one of: free_fn, alloc_fn, owned_pattern, cleanup_fn");
        return Err(message);
    }
    let language = if named.as_str().is_empty() {
        "c".to_owned()
    } else {
        named
    };
    Ok(RulePlan { language, rule_kind, pattern })
}

/// What is answered when a rule was saved.
pub open spec fn saved_fields(
    plan: RulePlan,
    rule_id: JsonView,
    confidence: JsonView,
) -> Map<Seq<char>, JsonView> {
    no_fields().insert("ok"@, JsonView::Bool(true)).insert("rule_id"@, rule_id).insert(
        "language"@,
        JsonView::Str(plan.language@),
    ).insert("rule_kind"@, JsonView::Str(plan.rule_kind@)).insert(
        "pattern"@,
        JsonView::Str(plan.pattern@),
    ).insert("source"@, JsonView::Str("user"@)).insert("confidence"@, confidence)
}

/// What is answered when a rule was to be saved.
pub open spec fn is_save_reply(
    reply: Result<Json, String>,
    plan: RulePlan,
    saved: Result<Json, String>,
    confidence: JsonView,
) -> bool {
    match saved {
        Ok(id) => reply matches Ok(body) && body@ == JsonView::Object(
            saved_fields(plan, id@, confidence),
        ),
        Err(e) => reply matches Err(message) && message@ == "Failed to save rule: "@ + e@,
    }
}

/// What is answered when a rule was to be saved, from what the store says.
pub fn save_reply(plan: &RulePlan, saved: Result<Json, String>, confidence: &Json) -> (reply: Result<
    Json,
    String,
>)
    ensures
        is_save_reply(reply, *plan, saved, confidence@),
{
    match saved {
        Ok(id) => {
            let mut object = JsonObject::new();
            object.put("ok", Json::Bool(true));
            object.put("rule_id", id);
            object.put("language", Json::text(plan.language.as_str()));
            object.put("rule_kind", Json::text(plan.rule_kind.as_str()));
            object.put("pattern", Json::text(plan.pattern.as_str()));
            object.put("source", Json::text("user"));
            object.put("confidence", confidence.clone());
            Ok(Json::Object(object))
        },
        Err(e) => {
            let mut message = "Failed to save rule: ".to_owned();
            message.append(e.as_str());
            Err(message)
        },
    }
}

/// What a request for rules asks for.
pub enum RuleAction {
    Delete { rule_id: String },
    /// The rules, of a language and with a status where they are named.
    List { language: Option<String>, status: Option<String>, source: String },
}

/// A text, where it is not empty.
pub open spec fn unless_empty(text: Seq<char>) -> Option<Seq<char>> {
    if text.len() == 0 {
        None
    } else {
        Some(text)
    }
}

/// Whether an action is the one that the arguments ask for.
pub open spec fn is_asked_action(action: Result<RuleAction, String>, args: JsonView) -> bool {
    if text_of(args, "action"@) == "delete"@ {
        if text_of(args, "rule_id"@).len() == 0 {
            action matches Err(e) && e@ == "Missing rule_id for delete action"@
        } else {
            action matches Ok(RuleAction::Delete { rule_id }) && rule_id@ == text_of(
                args,
                "rule_id"@,
            )
        }
    } else {
        action matches Ok(RuleAction::List { language, status, source }) && string_view(language)
            == unless_empty(text_of(args, "language"@)) && string_view(status) == unless_empty(
            text_of(args, "status"@),
        ) && source@ == text_of(args, "source"@)
    }
}

fn filled(text: String) -> (kept: Option<String>)
    ensures
        string_view(kept) == unless_empty(text@),
{
    if text.as_str().is_empty() {
        None
    } else {
        Some(text)
    }
}

/// Reads a request for rules.
pub fn plan_rule_action(args: &Json) -> (action: Result<RuleAction, String>)
    ensures
        is_asked_action(action, args@),
{
    let action = text_arg(args, "action");
    if same_text(action.as_str(), "delete") {
        let rule_id = text_arg(args, "rule_id");
        if rule_id.as_str().is_empty() {
            return Err("Missing rule_id for delete action".to_owned());
        }
        return Ok(RuleAction::Delete { rule_id });
    }
    Ok(
        RuleAction::List {
            language: filled(text_arg(args, "language")),
            status: filled(text_arg(args, "status")),
            source: text_arg(args, "source"),
        },
    )
}

/// What is answered when a rule was to be deleted.
pub open spec fn is_delete_reply(
    reply: Result<Json, String>,
    rule_id: Seq<char>,
    deleted: Result<bool, String>,
) -> bool {
    match deleted {
        Ok(true) => reply matches Ok(body) && body@ == JsonView::Object(
            no_fields().insert("ok"@, JsonView::Bool(true)).insert(
                "deleted"@,
                JsonView::Str(rule_id),
            ),
        ),
        Ok(false) => reply matches Err(message) && message@ == "Rule not found: "@ + rule_id,
        Err(e) => reply matches Err(message) && message@ == "Failed to delete rule: "@ + e@,
    }
}

/// What is answered when a rule was to be deleted, from what the store says.
pub fn delete_reply(rule_id: &str, deleted: &Result<bool, String>) -> (reply: Result<Json, String>)
    ensures
        is_delete_reply(reply, rule_id@, *deleted),
{
    match deleted {
        Ok(true) => {
            let mut object = JsonObject::new();
            object.put("ok", Json::Bool(true));
            object.put("deleted", Json::text(rule_id));
            Ok(Json::Object(object))
        },
        Ok(false) => {
            let mut message = "Rule not found: ".to_owned();
            message.append(rule_id);
            Err(message)
        },
        Err(e) => {
            let mut message = "Failed to delete rule: ".to_owned();
            message.append(e.as_str());
            Err(message)
        },
    }
}

/// A stored rule.
pub struct RuleRow {
    pub id: Json,
    pub language: String,
    pub source: String,
    pub rule_kind: String,
    pub pattern: String,
    pub pattern_kind: String,
    pub status: String,
    pub confidence: Json,
    pub created_at: Json,
    pub updated_at: Json,
}

/// A rule as it is listed.
pub open spec fn rule_view(rule: RuleRow) -> JsonView {
    JsonView::Object(
        no_fields().insert("id"@, rule.id@).insert(
            "language"@,
            JsonView::Str(rule.language@),
        ).insert("source"@, JsonView::Str(rule.source@)).insert(
            "rule_kind"@,
            JsonView::Str(rule.rule_kind@),
        ).insert("pattern"@, JsonView::Str(rule.pattern@)).insert(
            "pattern_kind"@,
            JsonView::Str(rule.pattern_kind@),
        ).insert("status"@, JsonView::Str(rule.status@)).insert(
            "confidence"@,
            rule.confidence@,
        ).insert("created_at"@, rule.created_at@).insert("updated_at"@, rule.updated_at@),
    )
}

/// The rules of a source, as they are listed; all, where no source is named.
pub open spec fn rules_of(rules: Seq<RuleRow>, source: Seq<char>) -> Seq<JsonView>
    decreases rules.len(),
{
    if rules.len() == 0 {
        Seq::empty()
    } else {
        let before = rules_of(rules.drop_last(), source);
        if source.len() == 0 || rules.last().source@ == source {
            before.push(rule_view(rules.last()))
        } else {
            before
        }
    }
}

/// The list of rules.
pub open spec fn rules_fields(rules: Seq<RuleRow>, source: Seq<char>) -> Map<Seq<char>, JsonView> {
    no_fields().insert("ok"@, JsonView::Bool(true)).insert(
        "total"@,
        JsonView::Unsigned(rules_of(rules, source).len() as u64),
    ).insert("rules"@, JsonView::Array(rules_of(rules, source)))
}

/// What is answered when rules were to be listed.
pub open spec fn is_list_reply(
    reply: Result<Json, String>,
    rules: Result<Vec<RuleRow>, String>,
    source: Seq<char>,
) -> bool {
    match rules {
        Ok(list) => reply matches Ok(body) && body@ == JsonView::Object(
            rules_fields(list@, source),
        ),
        Err(e) => reply matches Err(message) && message@ == "Failed to list rules: "@ + e@,
    }
}

fn rule_to_json(rule: &RuleRow) -> (json: Json)
    ensures
        json@ == rule_view(*rule),
{
    let mut object = JsonObject::new();
    object.put("id", rule.id.clone());
    object.put("language", Json::text(rule.language.as_str()));
    object.put("source", Json::text(rule.source.as_str()));
    object.put("rule_kind", Json::text(rule.rule_kind.as_str()));
    object.put("pattern", Json::text(rule.pattern.as_str()));
    object.put("pattern_kind", Json::text(rule.pattern_kind.as_str()));
    object.put("status", Json::text(rule.status.as_str()));
    object.put("confidence", rule.confidence.clone());
    object.put("created_at", rule.created_at.clone());
    object.put("updated_at", rule.updated_at.clone());
    Json::Object(object)
}

/// The list of rules, from what the store says.
pub fn list_rules_reply(rules: &Result<Vec<RuleRow>, String>, source: &str) -> (reply: Result<
    Json,
    String,
>)
    ensures
        is_list_reply(reply, *rules, source@),
{
    let list = match rules {
        Ok(list) => list,
        Err(e) => {
            let mut message = "Failed to list rules: ".to_owned();
            message.append(e.as_str());
            return Err(message);
        },
    };
    let mut items: Vec<Json> = Vec::new();
    let mut i: usize = 0;
    proof {
        assert(list@.take(0) =~= Seq::empty());
        assert(items_view(items@) =~= Seq::empty());
    }
    while i < list.len()
        invariant
            i <= list@.len(),
            items_view(items@) == rules_of(list@.take(i as int), source@),
        decreases list@.len() - i,
    {
        proof {
            assert(list@.take(i + 1).drop_last() =~= list@.take(i as int));
        }
        if source.is_empty() || same_text(list[i].source.as_str(), source) {
            let ghost before = items@;
            items.push(rule_to_json(&list[i]));
            proof {
                assert(items_view(items@) =~= items_view(before).push(rule_view(list@[i as int])));
            }
        }
        i = i + 1;
    }
    proof {
        assert(list@.take(i as int) =~= list@);
    }
    let mut object = JsonObject::new();
    object.put("ok", Json::Bool(true));
    object.put("total", Json::count(items.len()));
    object.put("rules", Json::Array(items));
    Ok(Json::Object(object))
}

/// A rule that usage suggests.
pub struct RuleCandidate {
    pub pattern: String,
    pub rule_kind: String,
    pub usage_count: Json,
    pub confidence: Json,
    /// Whether the confidence is as high as asked for.
    pub confident: bool,
}

/// A suggested rule as it is listed.
pub open spec fn suggestion_view(candidate: RuleCandidate) -> JsonView {
    JsonView::Object(
        no_fields().insert("function_name"@, JsonView::Str(candidate.pattern@)).insert(
            "rule_kind"@,
            JsonView::Str(candidate.rule_kind@),
        ).insert("usage_count"@, candidate.usage_count@).insert(
            "confidence"@,
            candidate.confidence@,
        ),
    )
}

/// The suggested rules that are confident enough, as they are listed.
pub open spec fn suggestions(candidates: Seq<RuleCandidate>) -> Seq<JsonView>
    decreases candidates.len(),
{
    if candidates.len() == 0 {
        Seq::empty()
    } else if candidates.last().confident {
        suggestions(candidates.drop_last()).push(suggestion_view(candidates.last()))
    } else {
        suggestions(candidates.drop_last())
    }
}

/// What is answered when rules were to be learned.
pub open spec fn is_learn_reply(
    reply: Result<Json, String>,
    candidates: Result<Vec<RuleCandidate>, String>,
) -> bool {
    match candidates {
        Ok(list) => reply matches Ok(body) && body@ == JsonView::Object(
            no_fields().insert("ok"@, JsonView::Bool(true)).insert(
                "candidates"@,
                JsonView::Array(suggestions(list@)),
            ).insert(
                "message"@,
                JsonView::Str(
                    "Review candidates and use domain_rules(action='add') to approve them; learned rules are not applied automatically."@,
                ),
            ),
        ),
        Err(e) => reply matches Err(message) && message@ == "Rule learning failed: "@ + e@,
    }
}

/// The suggested rules that are confident enough, from what was found.
pub fn learn_reply(candidates: &Result<Vec<RuleCandidate>, String>) -> (reply: Result<Json, String>)
    ensures
        is_learn_reply(reply, *candidates),
{
    let list = match candidates {
        Ok(list) => list,
        Err(e) => {
            let mut message = "Rule learning failed: ".to_owned();
            message.append(e.as_str());
            return Err(message);
        },
    };
    let mut items: Vec<Json> = Vec::new();
    let mut i: usize = 0;
    proof {
        assert(list@.take(0) =~= Seq::empty());
        assert(items_view(items@) =~= Seq::empty());
    }
    while i < list.len()
        invariant
            i <= list@.len(),
            items_view(items@) == suggestions(list@.take(i as int)),
        decreases list@.len() - i,
    {
        proof {
            assert(list@.take(i + 1).drop_last() =~= list@.take(i as int));
        }
        if list[i].confident {
            let ghost before = items@;
            let mut object = JsonObject::new();
            object.put("function_name", Json::text(list[i].pattern.as_str()));
            object.put("rule_kind", Json::text(list[i].rule_kind.as_str()));
            object.put("usage_count", list[i].usage_count.clone());
            object.put("confidence", list[i].confidence.clone());
            items.push(Json::Object(object));
            proof {
                assert(items_view(items@) =~= items_view(before).push(
                    suggestion_view(list@[i as int]),
                ));
            }
        }
        i = i + 1;
    }
    proof {
        assert(list@.take(i as int) =~= list@);
    }
    let mut object = JsonObject::new();
    object.put("ok", Json::Bool(true));
    object.put("candidates", Json::Array(items));
    object.put(
        "message",
        Json::text(
            "Review candidates and use domain_rules(action='add') to approve them; learned rules are not applied automatically.",
        ),
    );
    Ok(Json::Object(object))
}

/// A rule is accepted exactly where it has a pattern and a known kind.
pub proof fn law_known_rules_are_accepted(args: JsonView)
    ensures
        rule_refusal(args) is None <==> is_rule_kind(text_of(args, "rule_kind"@)) && text_of(
            args,
            "pattern"@,
        ).len() > 0,
{
    reveal_strlit("free_fn");
    reveal_strlit("alloc_fn");
    reveal_strlit("owned_pattern");
    reveal_strlit("cleanup_fn");
    assert("free_fn"@.len() > 0);
    assert("alloc_fn"@.len() > 0);
    assert("owned_pattern"@.len() > 0);
    assert("cleanup_fn"@.len() > 0);
}

/// Whether a listed value tells a stored rule.
pub open spec fn tells_rule(listed: JsonView, rule: RuleRow) -> bool {
    &&& listed.field("id"@) == Some(rule.id@)
    &&& listed.text_field("language"@) == Some(rule.language@)
    &&& listed.text_field("source"@) == Some(rule.source@)
    &&& listed.text_field("rule_kind"@) == Some(rule.rule_kind@)
    &&& listed.text_field("pattern"@) == Some(rule.pattern@)
    &&& listed.text_field("pattern_kind"@) == Some(rule.pattern_kind@)
    &&& listed.text_field("status"@) == Some(rule.status@)
    &&& listed.field("confidence"@) == Some(rule.confidence@)
    &&& listed.field("created_at"@) == Some(rule.created_at@)
    &&& listed.field("updated_at"@) == Some(rule.updated_at@)
}

proof fn lemma_rule_is_told(rule: RuleRow)
    ensures
        tells_rule(rule_view(rule), rule),
{
    reveal_strlit("id");
    reveal_strlit("language");
    reveal_strlit("source");
    reveal_strlit("rule_kind");
    reveal_strlit("pattern");
    reveal_strlit("pattern_kind");
    reveal_strlit("status");
    reveal_strlit("confidence");
    reveal_strlit("created_at");
    reveal_strlit("updated_at");
    assert("id"@.len() != "language"@.len());
    assert("id"@.len() != "source"@.len());
    assert("id"@.len() != "rule_kind"@.len());
    assert("id"@.len() != "pattern"@.len());
    assert("id"@.len() != "pattern_kind"@.len());
    assert("id"@.len() != "status"@.len());
    assert("id"@.len() != "confidence"@.len());
    assert("id"@.len() != "created_at"@.len());
    assert("id"@.len() != "updated_at"@.len());
    assert("language"@.len() != "source"@.len());
    assert("language"@.len() != "rule_kind"@.len());
    assert("language"@.len() != "pattern"@.len());
    assert("language"@.len() != "pattern_kind"@.len());
    assert("language"@.len() != "status"@.len());
    assert("language"@.len() != "confidence"@.len());
    assert("language"@.len() != "created_at"@.len());
    assert("language"@.len() != "updated_at"@.len());
    assert("source"@.len() != "rule_kind"@.len());
    assert("source"@.len() != "pattern"@.len());
    assert("source"@.len() != "pattern_kind"@.len());
    assert("source"@[1] != "status"@[1]);
    assert("source"@.len() != "confidence"@.len());
    assert("source"@.len() != "created_at"@.len());
    assert("source"@.len() != "updated_at"@.len());
    assert("rule_kind"@.len() != "pattern"@.len());
    assert("rule_kind"@.len() != "pattern_kind"@.len());
    assert("rule_kind"@.len() != "status"@.len());
    assert("rule_kind"@.len() != "confidence"@.len());
    assert("rule_kind"@.len() != "created_at"@.len());
    assert("rule_kind"@.len() != "updated_at"@.len());
    assert("pattern"@.len() != "pattern_kind"@.len());
    assert("pattern"@.len() != "status"@.len());
    assert("pattern"@.len() != "confidence"@.len());
    assert("pattern"@.len() != "created_at"@.len());
    assert("pattern"@.len() != "updated_at"@.len());
    assert("pattern_kind"@.len() != "status"@.len());
    assert("pattern_kind"@.len() != "confidence"@.len());
    assert("pattern_kind"@.len() != "created_at"@.len());
    assert("pattern_kind"@.len() != "updated_at"@.len());
    assert("status"@.len() != "confidence"@.len());
    assert("status"@.len() != "created_at"@.len());
    assert("status"@.len() != "updated_at"@.len());
    assert("confidence"@[1] != "created_at"@[1]);
    assert("confidence"@[0] != "updated_at"@[0]);
    assert("created_at"@[0] != "updated_at"@[0]);
}

proof fn lemma_rules_of_a_source(rules: Seq<RuleRow>, source: Seq<char>)
    ensures
        ({
            let listed = rules_of(rules, source);
            let kept = rules.filter(|rule: RuleRow| source.len() == 0 || rule.source@ == source);
            &&& listed.len() == kept.len()
            &&& forall|i: int| 0 <= i < listed.len() ==> tells_rule(#[trigger] listed[i], kept[i])
        }),
    decreases rules.len(),
{
    reveal(Seq::filter);
    if rules.len() > 0 {
        lemma_rules_of_a_source(rules.drop_last(), source);
        lemma_rule_is_told(rules.last());
        let before = rules_of(rules.drop_last(), source);
        let listed = rules_of(rules, source);
        let kept = rules.filter(|rule: RuleRow| source.len() == 0 || rule.source@ == source);
        assert forall|i: int| 0 <= i < listed.len() implies tells_rule(
            #[trigger] listed[i],
            kept[i],
        ) by {
            if i < before.len() {
                assert(listed[i] == before[i]);
            }
        }
    }
}

/// The rules of the source that is asked for are listed, all of them and in order, and
/// counted; without a source all rules are.
pub proof fn law_rules_of_a_source_are_listed(rules: Seq<RuleRow>, source: Seq<char>)
    ensures
        ({
            let body = JsonView::Object(rules_fields(rules, source));
            let kept = rules.filter(|rule: RuleRow| source.len() == 0 || rule.source@ == source);
            &&& body.bool_field("ok"@) == Some(true)
            &&& body.unsigned_field("total"@) == Some(kept.len() as u64)
            &&& body.field("rules"@) matches Some(JsonView::Array(listed)) && listed.len()
                == kept.len() && forall|i: int|
                0 <= i < listed.len() ==> tells_rule(#[trigger] listed[i], kept[i])
        }),
{
    reveal_strlit("ok");
    reveal_strlit("total");
    reveal_strlit("rules");
    assert("ok"@.len() != "total"@.len());
    assert("ok"@.len() != "rules"@.len());
    assert("total"@[0] != "rules"@[0]);
    lemma_rules_of_a_source(rules, source);
}

/// The suggested rules are those that are confident enough, all of them and in order.
pub proof fn law_confident_rules_are_suggested(candidates: Seq<RuleCandidate>)
    ensures
        ({
            let listed = suggestions(candidates);
            let kept = candidates.filter(|candidate: RuleCandidate| candidate.confident);
            &&& listed.len() == kept.len()
            &&& forall|i: int|
                0 <= i < listed.len() ==> (#[trigger] listed[i]).text_field("function_name"@)
                    == Some(kept[i].pattern@) && listed[i].text_field("rule_kind"@) == Some(
                    kept[i].rule_kind@,
                ) && listed[i].field("usage_count"@) == Some(kept[i].usage_count@)
                    && listed[i].field("confidence"@) == Some(kept[i].confidence@)
        }),
    decreases candidates.len(),
{
    reveal(Seq::filter);
    reveal_strlit("function_name");
    reveal_strlit("rule_kind");
    reveal_strlit("usage_count");
    reveal_strlit("confidence");
    assert("function_name"@.len() != "rule_kind"@.len());
    assert("function_name"@.len() != "usage_count"@.len());
    assert("function_name"@.len() != "confidence"@.len());
    assert("rule_kind"@.len() != "usage_count"@.len());
    assert("rule_kind"@.len() != "confidence"@.len());
    assert("usage_count"@.len() != "confidence"@.len());
    if candidates.len() > 0 {
        law_confident_rules_are_suggested(candidates.drop_last());
    }
}

/// A rule that was saved is told as it was declared, as a rule of the user.
pub proof fn law_saved_rule_is_told(plan: RulePlan, rule_id: JsonView, confidence: JsonView)
    ensures
        ({
            let body = JsonView::Object(saved_fields(plan, rule_id, confidence));
            &&& body.bool_field("ok"@) == Some(true)
            &&& body.field("rule_id"@) == Some(rule_id)
            &&& body.text_field("language"@) == Some(plan.language@)
            &&& body.text_field("rule_kind"@) == Some(plan.rule_kind@)
            &&& body.text_field("pattern"@) == Some(plan.pattern@)
            &&& body.text_field("source"@) == Some("user"@)
            &&& body.field("confidence"@) == Some(confidence)
        }),
{
    reveal_strlit("ok");
    reveal_strlit("rule_id");
    reveal_strlit("language");
    reveal_strlit("rule_kind");
    reveal_strlit("pattern");
    reveal_strlit("source");
    reveal_strlit("confidence");
    assert("ok"@.len() != "rule_id"@.len());
    assert("ok"@.len() != "language"@.len());
    assert("ok"@.len() != "rule_kind"@.len());
    assert("ok"@.len() != "pattern"@.len());
    assert("ok"@.len() != "source"@.len());
    assert("ok"@.len() != "confidence"@.len());
    assert("rule_id"@.len() != "language"@.len());
    assert("rule_id"@.len() != "rule_kind"@.len());
    assert("rule_id"@[0] != "pattern"@[0]);
    assert("rule_id"@.len() != "source"@.len());
    assert("rule_id"@.len() != "confidence"@.len());
    assert("language"@.len() != "rule_kind"@.len());
    assert("language"@.len() != "pattern"@.len());
    assert("language"@.len() != "source"@.len());
    assert("language"@.len() != "confidence"@.len());
    assert("rule_kind"@.len() != "pattern"@.len());
    assert("rule_kind"@.len() != "source"@.len());
    assert("rule_kind"@.len() != "confidence"@.len());
    assert("pattern"@.len() != "source"@.len());
    assert("pattern"@.len() != "confidence"@.len());
    assert("source"@.len() != "confidence"@.len());
}

/// Whether the reply to a request says that it failed, and why.
pub open spec fn tells_failure(reply: Result<Json, String>, error: Seq<char>) -> bool {
    reply matches Err(message) && error.is_suffix_of(message@)
}

/// What the store does is what is replied: a rule that was saved or deleted is named, and
/// what failed is told.
pub proof fn law_store_is_reported(
    plan: RulePlan,
    saved: Result<Json, String>,
    confidence: JsonView,
    save_reply: Result<Json, String>,
    rule_id: Seq<char>,
    deleted: Result<bool, String>,
    delete_reply: Result<Json, String>,
    rules: Result<Vec<RuleRow>, String>,
    source: Seq<char>,
    list_reply: Result<Json, String>,
    candidates: Result<Vec<RuleCandidate>, String>,
    learn_reply: Result<Json, String>,
)
    requires
        is_save_reply(save_reply, plan, saved, confidence),
        is_delete_reply(delete_reply, rule_id, deleted),
        is_list_reply(list_reply, rules, source),
        is_learn_reply(learn_reply, candidates),
    ensures
        saved matches Ok(id) ==> (save_reply matches Ok(body) && body@.field("rule_id"@) == Some(
            id@,
        )),
        saved matches Err(e) ==> tells_failure(save_reply, e@),
        deleted == Ok::<bool, String>(true) ==> (delete_reply matches Ok(body) && body@.text_field(
            "deleted"@,
        ) == Some(rule_id)),
        deleted == Ok::<bool, String>(false) ==> tells_failure(delete_reply, rule_id),
        deleted matches Err(e) ==> tells_failure(delete_reply, e@),
        rules is Ok <==> list_reply is Ok,
        rules matches Err(e) ==> tells_failure(list_reply, e@),
        candidates matches Ok(found) ==> (learn_reply matches Ok(body) && body@.field(
            "candidates"@,
        ) == Some(JsonView::Array(suggestions(found@)))),
        candidates matches Err(e) ==> tells_failure(learn_reply, e@),
{
    reveal_strlit("rule_id");
    reveal_strlit("language");
    reveal_strlit("rule_kind");
    reveal_strlit("pattern");
    reveal_strlit("source");
    reveal_strlit("confidence");
    reveal_strlit("ok");
    reveal_strlit("deleted");
    reveal_strlit("candidates");
    reveal_strlit("message");
    assert("rule_id"@.len() != "language"@.len());
    assert("rule_id"@.len() != "rule_kind"@.len());
    assert("rule_id"@[0] != "pattern"@[0]);
    assert("rule_id"@.len() != "source"@.len());
    assert("rule_id"@.len() != "confidence"@.len());
    assert("ok"@.len() != "deleted"@.len());
    assert("ok"@.len() != "candidates"@.len());
    assert("ok"@.len() != "message"@.len());
    assert("candidates"@.len() != "message"@.len());
    if let (Err(e), Err(message)) = (saved, save_reply) {
        assert(message@.subrange(message@.len() - e@.len(), message@.len() as int) =~= e@);
    }
    if let (Err(e), Err(message)) = (deleted, delete_reply) {
        assert(message@.subrange(message@.len() - e@.len(), message@.len() as int) =~= e@);
    }
    if let (Ok(false), Err(message)) = (deleted, delete_reply) {
        assert(message@.subrange(message@.len() - rule_id.len(), message@.len() as int)
            =~= rule_id);
    }
    if let (Err(e), Err(message)) = (rules, list_reply) {
        assert(message@.subrange(message@.len() - e@.len(), message@.len() as int) =~= e@);
    }
    if let (Err(e), Err(message)) = (candidates, learn_reply) {
        assert(message@.subrange(message@.len() - e@.len(), message@.len() as int) =~= e@);
    }
}

/// A request for rules deletes one only where it says so and names it; any other lists the
/// rules of the language, status and source that it names.
pub proof fn law_only_named_rules_are_deleted(action: Result<RuleAction, String>, args: JsonView)
    requires
        is_asked_action(action, args),
    ensures
        action matches Ok(RuleAction::Delete { rule_id }) ==> args.text_field("action"@) == Some(
            "delete"@,
        ) && args.text_field("rule_id"@) == Some(rule_id@) && rule_id@.len() > 0,
        args.text_field("action"@) == Some("delete"@) ==> !(action matches Ok(
            RuleAction::List { .. },
        )),
        action matches Ok(RuleAction::List { language, status, source }) ==> (
        language matches Some(named) ==> args.text_field("language"@) == Some(named@)) && (
        status matches Some(named) ==> args.text_field("status"@) == Some(named@)) && source@
            == text_of(args, "source"@) && (language is None <==> text_of(args, "language"@).len()
            == 0) && (status is None <==> text_of(args, "status"@).len() == 0),
{
    reveal_strlit("delete");
    assert("delete"@.len() > 0);
}

/// A rule is of the language that is named, and of C where none is.
pub proof fn law_rules_are_of_a_language(args: JsonView)
    ensures
        rule_language(args).len() > 0,
        rule_language(args) == "c"@ || args.text_field("language"@) == Some(rule_language(args)),
        args.text_field("language"@) matches Some(named) ==> named.len() > 0 ==> rule_language(args)
            == named,
{
    reveal_strlit("c");
}

/// The rules that the store has of a source are replied with.
pub proof fn law_rules_are_replied(
    rules: Vec<RuleRow>,
    source: Seq<char>,
    reply: Result<Json, String>,
)
    requires
        is_list_reply(reply, Ok(rules), source),
    ensures
        reply matches Ok(body) && body@.field("rules"@) == Some(
            JsonView::Array(rules_of(rules@, source)),
        ) && body@.unsigned_field("total"@) == Some(rules_of(rules@, source).len() as u64),
{
    reveal_strlit("ok");
    reveal_strlit("total");
    reveal_strlit("rules");
    assert("ok"@.len() != "total"@.len());
    assert("ok"@.len() != "rules"@.len());
    assert("total"@[0] != "rules"@[0]);
}

/// A kind of rule is known where it is one of the four that are named, and only there.
pub proof fn law_four_kinds_of_rules_are_known(kind: Seq<char>)
    ensures
        is_rule_kind(kind) <==> seq![
            "free_fn"@,
            "alloc_fn"@,
            "owned_pattern"@,
            "cleanup_fn"@,
        ].contains(kind),
{
    let kinds = seq!["free_fn"@, "alloc_fn"@, "owned_pattern"@, "cleanup_fn"@];
    assert(kinds[0] == "free_fn"@ && kinds[1] == "alloc_fn"@ && kinds[2] == "owned_pattern"@
        && kinds[3] == "cleanup_fn"@);
}

/// What was done is said to be done.
pub proof fn law_successes_are_told(
    rule_id: Seq<char>,
    deleted: Result<Json, String>,
    candidates: Vec<RuleCandidate>,
    learned: Result<Json, String>,
)
    requires
        is_delete_reply(deleted, rule_id, Ok(true)),
        is_learn_reply(learned, Ok(candidates)),
    ensures
        deleted matches Ok(body) && body@.bool_field("ok"@) == Some(true),
        learned matches Ok(body) && body@.bool_field("ok"@) == Some(true),
{
    reveal_strlit("ok");
    reveal_strlit("deleted");
    reveal_strlit("candidates");
    reveal_strlit("message");
    assert("ok"@.len() != "deleted"@.len());
    assert("ok"@.len() != "candidates"@.len());
    assert("ok"@.len() != "message"@.len());
}

} // verus!
