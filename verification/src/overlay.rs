//! Deleting persistent overlay data takes a confirmation: the delete is offered
//! under a fresh handle, and runs only when the client hands that handle back,
//! once, in time, with the same tool and arguments and an explicit consent.

use vstd::prelude::*;
use vstd::string::*;

use crate::digest::{
    encode_hex, hex_text, is_hex_digit, law_hex_text_has_two_digits_for_each_byte,
    law_hex_text_tells_bytes_apart,
};
use crate::errors::{broken, refused, AdapterError, AdapterErrorView};
use crate::forms::{confirm_schema, FieldView, FormRequest};
use crate::json::{no_fields, Json, JsonObject, JsonView};
use crate::json_text::{exact, json_same, json_text, json_to_string, same_json};
use crate::protocol::CallToolResult;
use crate::responses::{InputRequired, PreparedAdapterToolCall, PreparedToolCall, ToolResponse};
use crate::text::{from_chars, same_text, to_chars};
use crate::text_map::TextMap;

verus! {

/// How long an offer to confirm stands, in nanoseconds: 300 seconds.
pub const OVERLAY_DELETE_CONFIRMATION_TTL_NANOS: u64 = 300_000_000_000;

/// How many offers may stand at once.
pub const MAX_PENDING_OVERLAY_DELETE_CONFIRMATIONS: usize = 128;

/// What a confirmed call would delete.
pub enum OverlayDeleteTarget {
    DomainRule(String),
    FpAnnotation(String),
    FpField(String),
}

/// What a confirmed call would delete.
#[verifier::ext_equal]
pub enum TargetView {
    DomainRule(Seq<char>),
    FpAnnotation(Seq<char>),
    FpField(Seq<char>),
}

impl TargetView {
    /// The target in words.
    pub open spec fn description(self) -> Seq<char> {
        match self {
            TargetView::DomainRule(id) => "domain rule `"@ + id + "`"@,
            TargetView::FpAnnotation(id) => "function-pointer annotation `"@ + id + "`"@,
            TargetView::FpField(name) => "function-pointer annotation for field `"@ + name + "`"@,
        }
    }

    /// The target as response fields.
    pub open spec fn result_fields(self) -> Map<Seq<char>, JsonView> {
        match self {
            TargetView::DomainRule(id) => no_fields().insert(
                "target_kind"@,
                JsonView::Str("domain_rule"@),
            ).insert("rule_id"@, JsonView::Str(id)),
            TargetView::FpAnnotation(id) => no_fields().insert(
                "target_kind"@,
                JsonView::Str("fp_annotation"@),
            ).insert("annotation_id"@, JsonView::Str(id)),
            TargetView::FpField(name) => no_fields().insert(
                "target_kind"@,
                JsonView::Str("fp_field"@),
            ).insert("field_qname"@, JsonView::Str(name)),
        }
    }
}

fn quoted(before: &str, name: &str) -> (text: String)
    ensures
        text@ == before@ + name@ + "`"@,
{
    let mut text = before.to_owned();
    text.append(name);
    text.append("`");
    text
}

fn target_fields(kind: &str, name_field: &str, name: &str) -> (fields: JsonObject)
    ensures
        fields@ == no_fields().insert("target_kind"@, JsonView::Str(kind@)).insert(
            name_field@,
            JsonView::Str(name@),
        ),
{
    let mut fields = JsonObject::new();
    fields.put("target_kind", Json::text(kind));
    fields.put(name_field, Json::text(name));
    fields
}

impl OverlayDeleteTarget {
    /// What this would delete.
    pub open spec fn view(self) -> TargetView {
        match self {
            OverlayDeleteTarget::DomainRule(id) => TargetView::DomainRule(id@),
            OverlayDeleteTarget::FpAnnotation(id) => TargetView::FpAnnotation(id@),
            OverlayDeleteTarget::FpField(name) => TargetView::FpField(name@),
        }
    }

    /// The target in words.
    pub fn description(&self) -> (text: String)
        ensures
            text@ == self@.description(),
    {
        match self {
            OverlayDeleteTarget::DomainRule(id) => quoted("domain rule `", id.as_str()),
            OverlayDeleteTarget::FpAnnotation(id) => quoted(
                "function-pointer annotation `",
                id.as_str(),
            ),
            OverlayDeleteTarget::FpField(name) => quoted(
                "function-pointer annotation for field `",
                name.as_str(),
            ),
        }
    }

    /// The target as response fields.
    pub fn result_fields(&self) -> (fields: JsonObject)
        ensures
            fields@ == self@.result_fields(),
    {
        match self {
            OverlayDeleteTarget::DomainRule(id) => target_fields(
                "domain_rule",
                "rule_id",
                id.as_str(),
            ),
            OverlayDeleteTarget::FpAnnotation(id) => target_fields(
                "fp_annotation",
                "annotation_id",
                id.as_str(),
            ),
            OverlayDeleteTarget::FpField(name) => target_fields(
                "fp_field",
                "field_qname",
                name.as_str(),
            ),
        }
    }
}

/// The text of a field that is a non-empty string.
pub open spec fn filled_field(args: JsonView, name: Seq<char>) -> Option<Seq<char>> {
    match args.text_field(name) {
        Some(text) => if text.len() == 0 {
            None
        } else {
            Some(text)
        },
        None => None,
    }
}

/// What a tool call would delete from the overlay, if it is a delete of one.
pub open spec fn delete_target(tool_name: Seq<char>, args: JsonView) -> Option<TargetView> {
    if args.text_field("action"@) != Some("delete"@) {
        None
    } else if tool_name == "domain_rules"@ {
        match filled_field(args, "rule_id"@) {
            Some(id) => Some(TargetView::DomainRule(id)),
            None => None,
        }
    } else if tool_name == "fp_dispatches"@ {
        match filled_field(args, "annotation_id"@) {
            Some(id) => Some(TargetView::FpAnnotation(id)),
            None => match filled_field(args, "field_qname"@) {
                Some(name) => Some(TargetView::FpField(name)),
                None => None,
            },
        }
    } else {
        None
    }
}

fn read_filled(args: &Json, name: &str) -> (text: Option<String>)
    ensures
        crate::text::string_view(text) == filled_field(args@, name@),
{
    match args.get_str(name) {
        Some(text) => if text.is_empty() {
            None
        } else {
            Some(text.to_owned())
        },
        None => None,
    }
}

/// What an optional target is.
pub open spec fn target_view(target: Option<OverlayDeleteTarget>) -> Option<TargetView> {
    match target {
        Some(t) => Some(t@),
        None => None,
    }
}

/// Whether the field `name` is the given string.
pub fn field_is(args: &Json, name: &str, expected: &str) -> (yes: bool)
    ensures
        yes == (args@.text_field(name@) == Some(expected@)),
{
    match args.get_str(name) {
        Some(text) => same_text(text, expected),
        None => false,
    }
}

/// What a tool call would delete from the overlay, if it is a delete of one.
pub fn overlay_delete_target(tool_name: &str, args: &Json) -> (target: Option<OverlayDeleteTarget>)
    ensures
        target_view(target) == delete_target(tool_name@, args@),
{
    if !field_is(args, "action", "delete") {
        return None;
    }
    if same_text(tool_name, "domain_rules") {
        match read_filled(args, "rule_id") {
            Some(id) => Some(OverlayDeleteTarget::DomainRule(id)),
            None => None,
        }
    } else if same_text(tool_name, "fp_dispatches") {
        match read_filled(args, "annotation_id") {
            Some(id) => Some(OverlayDeleteTarget::FpAnnotation(id)),
            None => match read_filled(args, "field_qname") {
                Some(name) => Some(OverlayDeleteTarget::FpField(name)),
                None => None,
            },
        }
    } else {
        None
    }
}

/// An offer that waits for its confirmation. `execution_router` is the project
/// scope that was active when the offer was made.
pub struct PendingOverlayDeleteConfirmation<R> {
    pub tool_name: String,
    pub args: Json,
    pub execution_router: R,
    pub project_root: String,
    pub target: OverlayDeleteTarget,
    pub created_at: u64,
}

/// An offer that waits for its confirmation.
pub struct PendingView<R> {
    pub tool_name: Seq<char>,
    pub args: JsonView,
    pub execution_router: R,
    pub project_root: Seq<char>,
    pub target: TargetView,
    pub created_at: u64,
}

impl<R> PendingOverlayDeleteConfirmation<R> {
    /// The offer.
    pub open spec fn view(self) -> PendingView<R> {
        PendingView {
            tool_name: self.tool_name@,
            args: self.args@,
            execution_router: self.execution_router,
            project_root: self.project_root@,
            target: self.target@,
            created_at: self.created_at,
        }
    }
}

/// The time from `then` to `now`; none where the clock stands before `then`.
pub open spec fn elapsed(then: u64, now: u64) -> u64 {
    if now >= then {
        (now - then) as u64
    } else {
        0
    }
}

/// Whether an offer made at `created_at` still stands at `now`.
pub open spec fn stands(created_at: u64, now: u64) -> bool {
    elapsed(created_at, now) < OVERLAY_DELETE_CONFIRMATION_TTL_NANOS
}

fn still_stands(created_at: u64, now: u64) -> (yes: bool)
    ensures
        yes == stands(created_at, now),
{
    if now >= created_at {
        now - created_at < OVERLAY_DELETE_CONFIRMATION_TTL_NANOS
    } else {
        true
    }
}

/// The offers of `queue` that still stand at `now`.
pub open spec fn standing<R>(queue: Map<Seq<char>, PendingView<R>>, now: u64) -> Map<
    Seq<char>,
    PendingView<R>,
> {
    queue.restrict(
        Set::new(
            |handle: Seq<char>|
                queue.contains_key(handle) && stands(queue[handle].created_at, now),
        ),
    )
}

/// The offers that wait for their confirmation, each under its handle.
pub struct ConfirmationQueue<R> {
    pending: TextMap<PendingOverlayDeleteConfirmation<R>>,
}

/// The response field that names the project.
pub open spec fn declined_body<R>(pending: PendingView<R>) -> JsonView {
    JsonView::Object(
        pending.target.result_fields().insert("ok"@, JsonView::Bool(false)).insert(
            "status"@,
            JsonView::Str("not_deleted"@),
        ).insert("reason"@, JsonView::Str("confirmation_declined"@)).insert(
            "tool"@,
            JsonView::Str(pending.tool_name),
        ).insert("project_path"@, JsonView::Str(pending.project_root)),
    )
}

/// The answer to a delete that was not confirmed.
pub fn overlay_delete_declined_response<R>(pending: &PendingOverlayDeleteConfirmation<R>) -> (response:
    ToolResponse)
    ensures
        response.completes_with(json_text(declined_body(pending@))),
{
    let mut body = pending.target.result_fields();
    body.put("ok", Json::Bool(false));
    body.put("status", Json::text("not_deleted"));
    body.put("reason", Json::text("confirmation_declined"));
    body.put("tool", Json::text(pending.tool_name.as_str()));
    body.put("project_path", Json::text(pending.project_root.as_str()));
    let text = json_to_string(&Json::Object(body));
    ToolResponse::Complete(CallToolResult::of_text(text, false))
}

/// What becomes of a confirmation that a client sent.
pub enum Verdict {
    /// The delete runs, in the scope that was pinned when it was offered.
    Execute,
    /// The delete does not run, and the client is told so.
    Decline,
    /// The confirmation is refused.
    Refuse(Seq<char>),
}

/// What becomes of a confirmation: `pending` is the offer that its handle named,
/// if there is one that stands.
pub open spec fn retry_verdict<R>(
    pending: Option<PendingView<R>>,
    tool_name: Seq<char>,
    args: JsonView,
    responses: Option<Map<Seq<char>, JsonView>>,
) -> Verdict {
    match pending {
        None => Verdict::Refuse(
            "overlay delete confirmation state is unknown, expired, or already used"@,
        ),
        Some(offer) => if offer.tool_name != tool_name || !json_same(offer.args, args) {
            Verdict::Refuse(
                "overlay delete confirmation retry changed the original tool or arguments"@,
            )
        } else {
            match responses {
                None => Verdict::Refuse("overlay delete confirmation inputResponses are missing"@),
                Some(given) => if given.dom().len() != 1 {
                    Verdict::Refuse(
                        "overlay delete confirmation expects exactly one input response"@,
                    )
                } else if !given.contains_key("confirm_overlay_delete"@) {
                    Verdict::Refuse("overlay delete confirmation response is missing"@)
                } else {
                    consent_verdict(given["confirm_overlay_delete"@])
                },
            }
        },
    }
}

/// What becomes of the client's answer to the confirmation form.
pub open spec fn consent_verdict(response: JsonView) -> Verdict {
    match response.text_field("action"@) {
        None => Verdict::Refuse("overlay delete confirmation action is missing"@),
        Some(action) => if action == "accept"@ {
            match response.field("content"@) {
                Some(content) => match content.bool_field("confirm"@) {
                    Some(true) => Verdict::Execute,
                    Some(false) => Verdict::Decline,
                    None => no_boolean(),
                },
                None => no_boolean(),
            }
        } else if action == "decline"@ || action == "cancel"@ {
            Verdict::Decline
        } else {
            Verdict::Refuse("unknown overlay delete confirmation action"@)
        },
    }
}

/// The refusal of an accepted confirmation that does not say yes or no.
pub open spec fn no_boolean() -> Verdict {
    Verdict::Refuse("accepted overlay delete confirmation requires a boolean confirm value"@)
}

/// The message of the confirmation form.
pub open spec fn confirm_message(target: TargetView, project_root: Seq<char>) -> Seq<char> {
    "Confirm deleting "@ + target.description() + " from Atlas project `"@ + project_root
        + "`. This modifies persistent project data."@
}

/// What the confirmation form asks for.
pub open spec fn confirm_field() -> FieldView {
    FieldView::Confirm {
        title: "Confirm persistent deletion"@,
        description: "Set true only after verifying the project and exact delete target"@,
        default: false,
    }
}

/// Whether a prepared call is the offer of a delete under the given handle.
pub open spec fn offers<R>(
    prepared: PreparedAdapterToolCall<R>,
    args: JsonView,
    target: TargetView,
    project_root: Seq<char>,
    handle: Seq<char>,
) -> bool {
    &&& prepared.execution_router is None
    &&& prepared.call.args@ == args
    &&& !prepared.call.allow_candidate_mrtr
    &&& prepared.call.immediate_response matches Some(response) && response.requests(
        "confirm_overlay_delete"@,
        confirm_message(target, project_root),
        "Confirm deletion of persistent Atlas overlay data"@,
        "confirm"@,
        confirm_field(),
        Some(handle),
    )
}

/// The error of a queue that is full.
pub open spec fn queue_full() -> AdapterErrorView {
    broken(
        "Atlas overlay delete confirmation queue is full"@,
        Some(
            JsonView::Object(
                no_fields().insert(
                    "maximum_pending"@,
                    JsonView::Unsigned(MAX_PENDING_OVERLAY_DELETE_CONFIRMATIONS as u64),
                ),
            ),
        ),
    )
}

/// Whether a text is that of a random UUID: hexadecimal digits in five groups, with the
/// version four and the variant of random UUIDs.
pub open spec fn is_uuid(text: Seq<char>) -> bool {
    &&& text.len() == 36
    &&& forall|i: int|
        0 <= i < 36 ==> if i == 8 || i == 13 || i == 18 || i == 23 {
            #[trigger] text[i] == '-'
        } else {
            is_hex_digit(text[i])
        }
    &&& text[14] == '4'
    &&& text[19] == '8' || text[19] == '9' || text[19] == 'a' || text[19] == 'b'
}

/// `uuid::Uuid::new_v4`, written out: a UUID of version four, in groups of lower-case
/// hexadecimal digits. Which one it is rests on chance, and is not promised.
#[verifier::external_body]
fn random_handle() -> (handle: String)
    ensures
        is_uuid(handle@),
{
    uuid::Uuid::new_v4().to_string()
}

/// A handle with another last byte.
spec fn ended(handle: Seq<char>, end: u8) -> Seq<char> {
    handle.take(34) + hex_text(seq![end])
}

fn handle_with_end(handle: &str, end: u8) -> (other: String)
    requires
        is_uuid(handle@),
    ensures
        other@ == ended(handle@, end),
        is_uuid(other@),
{
    let chars = to_chars(handle);
    let mut other = from_chars(&chars, 0, 34);
    let mut bytes: Vec<u8> = Vec::new();
    bytes.push(end);
    other.append(encode_hex(&bytes).as_str());
    proof {
        assert(bytes@ =~= seq![end]);
        law_hex_text_has_two_digits_for_each_byte(bytes@);
        assert forall|i: int| 0 <= i < 36 implies if i == 8 || i == 13 || i == 18 || i == 23 {
            #[trigger] other@[i] == '-'
        } else {
            is_hex_digit(other@[i])
        } by {
            if i < 34 {
                assert(other@[i] == handle@[i]);
            } else {
                assert(other@[i] == hex_text(bytes@)[i - 34]);
            }
        }
        assert(other@[14] == handle@[14] && other@[19] == handle@[19]);
    }
    other
}

proof fn lemma_some_end_is_unused(handles: Set<Seq<char>>, handle: Seq<char>)
    requires
        handles.finite(),
        handles.len() < 256,
        handle.len() == 36,
    ensures
        exists|end: u8| !handles.contains(#[trigger] ended(handle, end)),
{
    if forall|end: u8| handles.contains(#[trigger] ended(handle, end)) {
        let all = Seq::new(256, |i: int| ended(handle, i as u8));
        assert forall|i: int, j: int|
            0 <= i < all.len() && 0 <= j < all.len() && i != j implies all[i] != all[j] by {
            if all[i] == all[j] {
                let (a, b) = (i as u8, j as u8);
                assert(hex_text(seq![a]) =~= ended(handle, a).skip(34));
                assert(hex_text(seq![b]) =~= ended(handle, b).skip(34));
                law_hex_text_tells_bytes_apart(a, b);
            }
        }
        all.unique_seq_to_set();
        assert(all.to_set().subset_of(handles)) by {
            assert forall|text: Seq<char>| #[trigger]
                all.to_set().contains(text) implies handles.contains(text) by {
                let i = choose|i: int| 0 <= i < all.len() && all[i] == text;
                assert(handles.contains(ended(handle, i as u8)));
            }
        }
        vstd::set_lib::lemma_len_subset(all.to_set(), handles);
    }
}

fn read_consent(response: &Json) -> (confirmed: Result<bool, AdapterError>)
    ensures
        match consent_verdict(response@) {
            Verdict::Execute => confirmed matches Ok(yes) && yes,
            Verdict::Decline => confirmed matches Ok(yes) && !yes,
            Verdict::Refuse(message) => confirmed matches Err(e) && e@ == refused(message),
        },
{
    let action = match response.get_str("action") {
        Some(action) => action,
        None => {
            return Err(
                AdapterError::invalid_params("overlay delete confirmation action is missing"),
            );
        },
    };
    if same_text(action, "accept") {
        let confirmed = match response.get("content") {
            Some(content) => content.get_bool("confirm"),
            None => None,
        };
        match confirmed {
            Some(yes) => Ok(yes),
            None => Err(
                AdapterError::invalid_params(
                    "accepted overlay delete confirmation requires a boolean confirm value",
                ),
            ),
        }
    } else if same_text(action, "decline") || same_text(action, "cancel") {
        Ok(false)
    } else {
        Err(AdapterError::invalid_params("unknown overlay delete confirmation action"))
    }
}

impl<R> ConfirmationQueue<R> {
    /// The offers, by handle.
    pub closed spec fn view(self) -> Map<Seq<char>, PendingView<R>> {
        self.pending@.map_values(|p: PendingOverlayDeleteConfirmation<R>| p@)
    }

    #[verifier::type_invariant]
    spec fn is_bounded(self) -> bool {
        self.pending@.dom().finite() && self.pending@.dom().len()
            <= MAX_PENDING_OVERLAY_DELETE_CONFIRMATIONS
    }

    /// A queue without offers.
    pub fn new() -> (queue: Self)
        ensures
            queue@ == Map::<Seq<char>, PendingView<R>>::empty(),
    {
        let queue = ConfirmationQueue { pending: TextMap::new() };
        proof {
            assert(queue@ =~= Map::<Seq<char>, PendingView<R>>::empty());
        }
        queue
    }

    /// The number of offers, which is never more than may stand at once.
    pub fn len(&self) -> (n: usize)
        ensures
            n == self@.dom().len(),
            n <= MAX_PENDING_OVERLAY_DELETE_CONFIRMATIONS,
    {
        proof {
            use_type_invariant(self);
            assert(self@.dom() =~= self.pending@.dom());
        }
        self.pending.len()
    }

    /// Drops the offers that no longer stand.
    pub fn prune_overlay_delete_confirmations(&mut self, now: u64)
        ensures
            final(self)@ == standing(old(self)@, now),
    {
        proof {
            use_type_invariant(&*self);
        }
        let ghost before = self.pending@;
        let ghost wanted = |p: PendingOverlayDeleteConfirmation<R>| stands(p.created_at, now);
        let keep = |p: &PendingOverlayDeleteConfirmation<R>| -> (yes: bool)
            ensures
                yes == stands(p.created_at, now),
            { still_stands(p.created_at, now) };
        let mut pending = TextMap::new();
        std::mem::swap(&mut pending, &mut self.pending);
        pending.retain(keep, Ghost(wanted));
        proof {
            assert(pending@.dom().subset_of(before.dom()));
            vstd::set_lib::lemma_len_subset(pending@.dom(), before.dom());
            let views = |p: PendingOverlayDeleteConfirmation<R>| p@;
            assert(pending@.map_values(views) =~= standing(before.map_values(views), now));
        }
        self.pending = pending;
    }

    /// Takes the offer under a handle out of the queue: it can be redeemed once.
    pub fn take_overlay_delete_confirmation(&mut self, now: u64, request_state: &str) -> (taken:
        Result<PendingOverlayDeleteConfirmation<R>, AdapterError>)
        ensures
            final(self)@ == standing(old(self)@, now).remove(request_state@),
            match taken {
                Ok(pending) => standing(old(self)@, now).contains_key(request_state@) && pending@
                    == standing(old(self)@, now)[request_state@],
                Err(e) => !standing(old(self)@, now).contains_key(request_state@) && e@ == refused(
                    "overlay delete confirmation state is unknown, expired, or already used"@,
                ),
            },
    {
        self.prune_overlay_delete_confirmations(now);
        proof {
            use_type_invariant(&*self);
        }
        let ghost before = self.pending@;
        let mut pending = TextMap::new();
        std::mem::swap(&mut pending, &mut self.pending);
        let taken = pending.remove(request_state);
        proof {
            assert(pending@.dom() =~= before.dom().remove(request_state@));
            let views = |p: PendingOverlayDeleteConfirmation<R>| p@;
            assert(pending@.map_values(views) =~= before.map_values(views).remove(request_state@));
        }
        self.pending = pending;
        match taken {
            Some(offer) => Ok(offer),
            None => Err(
                AdapterError::invalid_params(
                    "overlay delete confirmation state is unknown, expired, or already used",
                ),
            ),
        }
    }

    /// A UUID that no offer has: random ones are drawn until one is free. Should every
    /// draw be in use, the last byte of the last one is counted up until it is free.
    fn unused_handle(&self) -> (handle: String)
        ensures
            is_uuid(handle@),
            !self@.contains_key(handle@),
    {
        let mut handle = random_handle();
        let mut attempts: u64 = u64::MAX;
        while attempts > 0 && self.pending.contains_key(handle.as_str())
            invariant
                is_uuid(handle@),
            decreases attempts,
        {
            handle = random_handle();
            attempts = attempts - 1;
        }
        if !self.pending.contains_key(handle.as_str()) {
            return handle;
        }
        let mut end: u8 = 0;
        let mut other = handle_with_end(handle.as_str(), end);
        while end < 255 && self.pending.contains_key(other.as_str())
            invariant
                is_uuid(handle@),
                is_uuid(other@),
                other@ == ended(handle@, end),
                forall|e: u8| e < end ==> self.pending@.contains_key(#[trigger] ended(handle@, e)),
            decreases 255 - end,
        {
            end = end + 1;
            other = handle_with_end(handle.as_str(), end);
        }
        proof {
            use_type_invariant(self);
            lemma_some_end_is_unused(self.pending@.dom(), handle@);
            let free = choose|e: u8| !self.pending@.dom().contains(#[trigger] ended(handle@, e));
            assert(!self.pending@.contains_key(ended(handle@, free)));
            assert(free >= end);
        }
        other
    }

    /// Offers a delete under the given handle, which must not be in use.
    pub fn offer_under(
        &mut self,
        now: u64,
        tool_name: &str,
        args: &Json,
        target: OverlayDeleteTarget,
        execution_router: R,
        project_root: String,
        handle: String,
    ) -> (prepared: Result<PreparedAdapterToolCall<R>, AdapterError>)
        requires
            !old(self)@.contains_key(handle@),
            old(self)@.dom().len() < MAX_PENDING_OVERLAY_DELETE_CONFIRMATIONS,
        ensures
            prepared matches Ok(p) && offers(p, args@, target@, project_root@, handle@),
            final(self)@ == old(self)@.insert(
                handle@,
                (PendingView {
                    tool_name: tool_name@,
                    args: args@,
                    execution_router,
                    project_root: project_root@,
                    target: target@,
                    created_at: now,
                }),
            ),
    {
        proof {
            use_type_invariant(&*self);
        }
        let schema = match confirm_schema(
            "Confirm deletion of persistent Atlas overlay data",
            "confirm",
            "Confirm persistent deletion",
            "Set true only after verifying the project and exact delete target",
            false,
        ) {
            Ok(schema) => schema,
            Err(detail) => {
                return Err(
                    AdapterError::with_detail(
                        "Failed to build overlay delete confirmation schema",
                        detail,
                    ),
                );
            },
        };
        let mut message = "Confirm deleting ".to_owned();
        message.append(target.description().as_str());
        message.append(" from Atlas project `");
        message.append(project_root.as_str());
        message.append("`. This modifies persistent project data.");
        let response = ToolResponse::InputRequired(
            InputRequired {
                input_id: "confirm_overlay_delete".to_owned(),
                form: FormRequest { message, schema },
                request_state: Some(handle.clone()),
            },
        );
        let pending_offer = PendingOverlayDeleteConfirmation {
            tool_name: tool_name.to_owned(),
            args: args.clone(),
            execution_router,
            project_root,
            target,
            created_at: now,
        };
        let ghost before = self.pending@;
        let ghost key = handle@;
        let mut pending = TextMap::new();
        std::mem::swap(&mut pending, &mut self.pending);
        pending.insert(handle, pending_offer);
        proof {
            let views = |p: PendingOverlayDeleteConfirmation<R>| p@;
            assert(old(self)@.dom() =~= before.dom());
            assert(pending@.dom() =~= before.dom().insert(key));
            assert(pending@.map_values(views) =~= before.map_values(views).insert(
                key,
                pending_offer@,
            ));
        }
        self.pending = pending;
        Ok(
            PreparedAdapterToolCall {
                call: PreparedToolCall {
                    args: args.clone(),
                    allow_candidate_mrtr: false,
                    immediate_response: Some(response),
                },
                execution_router: None,
            },
        )
    }

    /// Offers a delete under a fresh random handle and asks the client to confirm
    /// it. `scope` is the pinned scope and the root of the active project, if
    /// there is one. Which UUID the handle is rests on chance; no other offer has it.
    pub fn overlay_delete_confirmation_response(
        &mut self,
        now: u64,
        tool_name: &str,
        args: &Json,
        target: OverlayDeleteTarget,
        scope: Option<(R, String)>,
    ) -> (prepared: Result<PreparedAdapterToolCall<R>, AdapterError>)
        ensures
            match scope {
                None => prepared matches Err(e) && e@ == refused(
                    "overlay delete confirmation requires an active project"@,
                ) && final(self)@ == old(self)@,
                Some((execution_router, project_root)) => if standing(old(self)@, now).dom().len()
                    >= MAX_PENDING_OVERLAY_DELETE_CONFIRMATIONS {
                    prepared matches Err(e) && e@ == queue_full() && final(self)@ == standing(
                        old(self)@,
                        now,
                    )
                } else {
                    prepared matches Ok(p) && exists|handle: Seq<char>|
                        is_uuid(handle) && !standing(old(self)@, now).contains_key(handle)
                            && #[trigger] offers(
                            p,
                            args@,
                            target@,
                            project_root@,
                            handle,
                        ) && final(self)@ == standing(old(self)@, now).insert(
                            handle,
                            (PendingView {
                                tool_name: tool_name@,
                                args: args@,
                                execution_router,
                                project_root: project_root@,
                                target: target@,
                                created_at: now,
                            }),
                        )
                },
            },
    {
        let (execution_router, project_root) = match scope {
            Some(pinned) => pinned,
            None => {
                return Err(
                    AdapterError::invalid_params(
                        "overlay delete confirmation requires an active project",
                    ),
                );
            },
        };
        self.prune_overlay_delete_confirmations(now);
        if self.len() >= MAX_PENDING_OVERLAY_DELETE_CONFIRMATIONS {
            let mut data = JsonObject::new();
            data.put(
                "maximum_pending",
                Json::count(MAX_PENDING_OVERLAY_DELETE_CONFIRMATIONS),
            );
            return Err(
                AdapterError::internal_error(
                    "Atlas overlay delete confirmation queue is full",
                    Some(Json::Object(data)),
                ),
            );
        }
        let handle = self.unused_handle();
        self.offer_under(now, tool_name, args, target, execution_router, project_root, handle)
    }

    /// Redeems a confirmation. The offer is used up first, so that every handle
    /// works once, whatever else is wrong with the request.
    pub fn prepare_overlay_delete_retry(
        &mut self,
        now: u64,
        tool_name: &str,
        args: &Json,
        input_responses: Option<&JsonObject>,
        request_state: &str,
    ) -> (prepared: Result<PreparedAdapterToolCall<R>, AdapterError>)
        ensures
            final(self)@ == standing(old(self)@, now).remove(request_state@),
            redeemed(
                standing(old(self)@, now),
                tool_name@,
                args@,
                responses_view(input_responses),
                request_state@,
                prepared,
            ),
    {
        let pending = match self.take_overlay_delete_confirmation(now, request_state) {
            Ok(pending) => pending,
            Err(error) => {
                return Err(error);
            },
        };
        if !same_text(pending.tool_name.as_str(), tool_name) || !same_json(&pending.args, args) {
            return Err(
                AdapterError::invalid_params(
                    "overlay delete confirmation retry changed the original tool or arguments",
                ),
            );
        }
        let responses = match input_responses {
            Some(responses) => responses,
            None => {
                return Err(
                    AdapterError::invalid_params(
                        "overlay delete confirmation inputResponses are missing",
                    ),
                );
            },
        };
        if responses.len() != 1 {
            return Err(
                AdapterError::invalid_params(
                    "overlay delete confirmation expects exactly one input response",
                ),
            );
        }
        let response = match responses.get("confirm_overlay_delete") {
            Some(response) => response,
            None => {
                return Err(
                    AdapterError::invalid_params("overlay delete confirmation response is missing"),
                );
            },
        };
        let confirmed = match read_consent(response) {
            Ok(confirmed) => confirmed,
            Err(error) => {
                return Err(error);
            },
        };
        if confirmed {
            Ok(
                PreparedAdapterToolCall {
                    call: PreparedToolCall {
                        args: pending.args,
                        allow_candidate_mrtr: false,
                        immediate_response: None,
                    },
                    execution_router: Some(pending.execution_router),
                },
            )
        } else {
            let declined = overlay_delete_declined_response(&pending);
            Ok(
                PreparedAdapterToolCall {
                    call: PreparedToolCall {
                        args: pending.args,
                        allow_candidate_mrtr: false,
                        immediate_response: Some(declined),
                    },
                    execution_router: None,
                },
            )
        }
    }
}

/// The input responses of a request.
pub open spec fn responses_view(responses: Option<&JsonObject>) -> Option<
    Map<Seq<char>, JsonView>,
> {
    match responses {
        Some(given) => Some(given@),
        None => None,
    }
}

/// The offer under a handle.
pub open spec fn offer_at<R>(offers: Map<Seq<char>, PendingView<R>>, handle: Seq<char>) -> Option<
    PendingView<R>,
> {
    if offers.contains_key(handle) {
        Some(offers[handle])
    } else {
        None
    }
}

/// Whether a confirmation was answered as its verdict says.
pub open spec fn redeemed<R>(
    offers: Map<Seq<char>, PendingView<R>>,
    tool_name: Seq<char>,
    args: JsonView,
    responses: Option<Map<Seq<char>, JsonView>>,
    handle: Seq<char>,
    prepared: Result<PreparedAdapterToolCall<R>, AdapterError>,
) -> bool {
    match retry_verdict(offer_at(offers, handle), tool_name, args, responses) {
        Verdict::Execute => prepared matches Ok(p) && p.call.runs_with(offers[handle].args, false)
            && p.execution_router == Some(offers[handle].execution_router),
        Verdict::Decline => prepared matches Ok(p) && p.call.args@ == offers[handle].args
            && !p.call.allow_candidate_mrtr && p.execution_router is None
            && (p.call.immediate_response matches Some(response) && response.completes_with(
            json_text(declined_body(offers[handle])),
        )),
        Verdict::Refuse(message) => prepared matches Err(e) && e@ == refused(message),
    }
}

/// A handle works once: whatever the first redemption came to, a later one under
/// the same handle is refused.
pub proof fn law_confirmation_is_one_shot<R>(
    offers: Map<Seq<char>, PendingView<R>>,
    now: u64,
    later: u64,
    handle: Seq<char>,
    tool_name: Seq<char>,
    args: JsonView,
    responses: Option<Map<Seq<char>, JsonView>>,
)
    ensures
        retry_verdict(
            offer_at(standing(standing(offers, now).remove(handle), later), handle),
            tool_name,
            args,
            responses,
        ) == Verdict::Refuse(
            "overlay delete confirmation state is unknown, expired, or already used"@,
        ),
{
}

/// An offer that is not redeemed in time can no longer be redeemed.
pub proof fn law_expired_confirmation_is_refused<R>(
    offers: Map<Seq<char>, PendingView<R>>,
    now: u64,
    handle: Seq<char>,
    tool_name: Seq<char>,
    args: JsonView,
    responses: Option<Map<Seq<char>, JsonView>>,
)
    requires
        offers.contains_key(handle),
        elapsed(offers[handle].created_at, now) >= OVERLAY_DELETE_CONFIRMATION_TTL_NANOS,
    ensures
        retry_verdict(offer_at(standing(offers, now), handle), tool_name, args, responses)
            == Verdict::Refuse(
            "overlay delete confirmation state is unknown, expired, or already used"@,
        ),
{
}

/// A delete runs only on an explicit yes to an offer for the same tool and
/// arguments; a refusal to consent never runs it.
pub proof fn law_delete_needs_consent<R>(
    pending: Option<PendingView<R>>,
    tool_name: Seq<char>,
    args: JsonView,
    responses: Option<Map<Seq<char>, JsonView>>,
)
    requires
        retry_verdict(pending, tool_name, args, responses) is Execute,
    ensures
        pending matches Some(offer) && offer.tool_name == tool_name && json_same(offer.args, args),
        responses matches Some(given) && given.dom().len() == 1 && given.contains_key(
            "confirm_overlay_delete"@,
        ) && given["confirm_overlay_delete"@].text_field("action"@) == Some("accept"@)
            && (given["confirm_overlay_delete"@].field("content"@) matches Some(content)
            && content.bool_field("confirm"@) == Some(true)),
{
}

/// Consent to other arguments than those that were offered is refused.
pub proof fn law_changed_arguments_are_refused<R>(
    offer: PendingView<R>,
    tool_name: Seq<char>,
    args: JsonView,
    responses: Option<Map<Seq<char>, JsonView>>,
)
    requires
        offer.tool_name != tool_name || (exact(offer.args) && offer.args != args),
    ensures
        retry_verdict(Some(offer), tool_name, args, responses) == Verdict::Refuse(
            "overlay delete confirmation retry changed the original tool or arguments"@,
        ),
{
}

/// An offer that is consented to in time, with the same tool and arguments, runs.
pub proof fn law_timely_consent_runs<R>(
    offers: Map<Seq<char>, PendingView<R>>,
    offer: PendingView<R>,
    handle: Seq<char>,
    later: u64,
    response: JsonView,
    content: JsonView,
)
    requires
        elapsed(offer.created_at, later) < OVERLAY_DELETE_CONFIRMATION_TTL_NANOS,
        response.text_field("action"@) == Some("accept"@),
        response.field("content"@) == Some(content),
        content.bool_field("confirm"@) == Some(true),
    ensures
        retry_verdict(
            offer_at(standing(offers.insert(handle, offer), later), handle),
            offer.tool_name,
            offer.args,
            Some(Map::<Seq<char>, JsonView>::empty().insert("confirm_overlay_delete"@, response)),
        ) is Execute,
{
    let queue = standing(offers.insert(handle, offer), later);
    assert(queue.contains_key(handle));
    let given = Map::<Seq<char>, JsonView>::empty().insert("confirm_overlay_delete"@, response);
    assert(given.dom() =~= Set::empty().insert("confirm_overlay_delete"@));
}

/// An offer stands from when it is made until its time is over, to the nanosecond, and
/// before that where the clock was set back; offers that stand are kept as they are.
pub proof fn law_offers_stand_for_their_time<R>(
    offers: Map<Seq<char>, PendingView<R>>,
    now: u64,
    handle: Seq<char>,
)
    ensures
        standing(offers, now).contains_key(handle) <==> offers.contains_key(handle) && now
            < offers[handle].created_at + OVERLAY_DELETE_CONFIRMATION_TTL_NANOS,
        standing(offers, now).contains_key(handle) ==> standing(offers, now)[handle]
            == offers[handle],
{
}

/// Whether an argument of a call is a text that is not empty.
pub open spec fn names(args: JsonView, field: Seq<char>, text: Seq<char>) -> bool {
    args.text_field(field) == Some(text) && text.len() > 0
}

/// What a call would delete is what its arguments name: a rule, an annotation, or the
/// annotation of a field where no annotation is named. Nothing is deleted by a call that
/// does not say so.
pub proof fn law_delete_target_is_what_is_named(tool_name: Seq<char>, args: JsonView)
    ensures
        delete_target(tool_name, args) is Some ==> args.text_field("action"@) == Some("delete"@),
        delete_target(tool_name, args) matches Some(TargetView::DomainRule(id)) ==> tool_name
            == "domain_rules"@ && names(args, "rule_id"@, id),
        delete_target(tool_name, args) matches Some(TargetView::FpAnnotation(id)) ==> tool_name
            == "fp_dispatches"@ && names(args, "annotation_id"@, id),
        delete_target(tool_name, args) matches Some(TargetView::FpField(name)) ==> tool_name
            == "fp_dispatches"@ && names(args, "field_qname"@, name) && !(exists|id: Seq<char>|
            #[trigger] names(args, "annotation_id"@, id)),
        forall|id: Seq<char>|
            args.text_field("action"@) == Some("delete"@) && tool_name == "domain_rules"@
                && #[trigger] names(args, "rule_id"@, id) ==> delete_target(tool_name, args)
                is Some,
        forall|id: Seq<char>|
            args.text_field("action"@) == Some("delete"@) && tool_name == "fp_dispatches"@ && (
            #[trigger] names(args, "annotation_id"@, id) || names(args, "field_qname"@, id))
                ==> delete_target(tool_name, args) is Some,
{
    reveal_strlit("domain_rules");
    reveal_strlit("fp_dispatches");
    assert("domain_rules"@.len() != "fp_dispatches"@.len());
}

/// The confirmation names the target and the project.
pub proof fn law_confirmation_names_the_target(target: TargetView, project_root: Seq<char>)
    ensures
        ({
            let name = match target {
                TargetView::DomainRule(id) => id,
                TargetView::FpAnnotation(id) => id,
                TargetView::FpField(name) => name,
            };
            &&& crate::text::holds_text(confirm_message(target, project_root), name)
            &&& crate::text::holds_text(confirm_message(target, project_root), project_root)
        }),
{
    let name = match target {
        TargetView::DomainRule(id) => id,
        TargetView::FpAnnotation(id) => id,
        TargetView::FpField(name) => name,
    };
    let kind = match target {
        TargetView::DomainRule(_) => "domain rule `"@,
        TargetView::FpAnnotation(_) => "function-pointer annotation `"@,
        TargetView::FpField(_) => "function-pointer annotation for field `"@,
    };
    let message = confirm_message(target, project_root);
    let end = "`. This modifies persistent project data."@;
    crate::text::law_text_holds_its_parts(
        "Confirm deleting "@ + kind,
        name,
        "`"@ + " from Atlas project `"@ + project_root + end,
    );
    assert(message =~= "Confirm deleting "@ + kind + name + ("`"@ + " from Atlas project `"@
        + project_root + end));
    crate::text::law_text_holds_its_parts(
        "Confirm deleting "@ + target.description() + " from Atlas project `"@,
        project_root,
        end,
    );
}

/// A delete that is declined is answered with what was not deleted, by which tool and in
/// which project, and is not said to be done.
pub proof fn law_declined_delete_is_told<R>(pending: PendingView<R>)
    ensures
        ({
            let body = declined_body(pending);
            &&& body.bool_field("ok"@) == Some(false)
            &&& body.text_field("status"@) == Some("not_deleted"@)
            &&& body.text_field("tool"@) == Some(pending.tool_name)
            &&& body.text_field("project_path"@) == Some(pending.project_root)
            &&& match pending.target {
                TargetView::DomainRule(id) => body.text_field("rule_id"@) == Some(id)
                    && body.text_field("target_kind"@) == Some("domain_rule"@),
                TargetView::FpAnnotation(id) => body.text_field("annotation_id"@) == Some(id)
                    && body.text_field("target_kind"@) == Some("fp_annotation"@),
                TargetView::FpField(name) => body.text_field("field_qname"@) == Some(name)
                    && body.text_field("target_kind"@) == Some("fp_field"@),
            }
        }),
{
    reveal_strlit("target_kind");
    reveal_strlit("ok");
    reveal_strlit("status");
    reveal_strlit("reason");
    reveal_strlit("tool");
    reveal_strlit("project_path");
    reveal_strlit("rule_id");
    reveal_strlit("annotation_id");
    reveal_strlit("field_qname");
    assert("target_kind"@.len() != "ok"@.len());
    assert("target_kind"@.len() != "status"@.len());
    assert("target_kind"@.len() != "reason"@.len());
    assert("target_kind"@.len() != "tool"@.len());
    assert("target_kind"@.len() != "project_path"@.len());
    assert("rule_id"@.len() != "ok"@.len());
    assert("rule_id"@.len() != "status"@.len());
    assert("rule_id"@.len() != "reason"@.len());
    assert("rule_id"@.len() != "tool"@.len());
    assert("rule_id"@.len() != "project_path"@.len());
    assert("annotation_id"@.len() != "ok"@.len());
    assert("annotation_id"@.len() != "status"@.len());
    assert("annotation_id"@.len() != "reason"@.len());
    assert("annotation_id"@.len() != "tool"@.len());
    assert("annotation_id"@.len() != "project_path"@.len());
    assert("field_qname"@.len() != "ok"@.len());
    assert("field_qname"@.len() != "status"@.len());
    assert("field_qname"@.len() != "reason"@.len());
    assert("field_qname"@.len() != "tool"@.len());
    assert("field_qname"@.len() != "project_path"@.len());
    assert("ok"@.len() != "status"@.len());
    assert("ok"@.len() != "reason"@.len());
    assert("ok"@.len() != "tool"@.len());
    assert("ok"@.len() != "project_path"@.len());
    assert("status"@[0] != "reason"@[0]);
    assert("status"@.len() != "tool"@.len());
    assert("status"@.len() != "project_path"@.len());
    assert("reason"@.len() != "tool"@.len());
    assert("reason"@.len() != "project_path"@.len());
    assert("tool"@.len() != "project_path"@.len());
    assert("target_kind"@.len() != "rule_id"@.len());
    assert("target_kind"@.len() != "annotation_id"@.len());
    assert("target_kind"@[0] != "field_qname"@[0]);
}

/// A form that is declined or cancelled declines the delete, and so does an accepted one that
/// says no.
pub proof fn law_refused_consent_declines(response: JsonView, content: JsonView)
    ensures
        response.text_field("action"@) == Some("decline"@) || response.text_field("action"@)
            == Some("cancel"@) ==> consent_verdict(response) is Decline,
        response.text_field("action"@) == Some("accept"@) && response.field("content"@) == Some(
            content,
        ) ==> (consent_verdict(response) is Decline <==> content.bool_field("confirm"@) == Some(
            false,
        )) && (consent_verdict(response) is Execute <==> content.bool_field("confirm"@) == Some(
            true,
        )),
{
    reveal_strlit("accept");
    reveal_strlit("decline");
    reveal_strlit("cancel");
    assert("accept"@.len() != "decline"@.len());
    assert("accept"@[0] != "cancel"@[0]);
}

/// A declined delete is answered at once, as a success that tells that nothing was deleted;
/// a confirmed one runs as it was offered, in the scope in which it was offered.
pub proof fn law_confirmations_are_answered<R>(
    offers: Map<Seq<char>, PendingView<R>>,
    tool_name: Seq<char>,
    args: JsonView,
    responses: Option<Map<Seq<char>, JsonView>>,
    handle: Seq<char>,
    prepared: PreparedAdapterToolCall<R>,
)
    requires
        redeemed(offers, tool_name, args, responses, handle, Ok(prepared)),
    ensures
        offers.contains_key(handle),
        prepared.call.args@ == offers[handle].args,
        !prepared.call.allow_candidate_mrtr,
        retry_verdict(Some(offers[handle]), tool_name, args, responses) is Execute
            ==> prepared.call.immediate_response is None && prepared.execution_router == Some(
            offers[handle].execution_router,
        ),
        retry_verdict(Some(offers[handle]), tool_name, args, responses) is Decline ==> (
        prepared.call.immediate_response matches Some(ToolResponse::Complete(result))
            && result.is_error == Some(false) && result.content@.len() == 1 && result.content@[0]@
            == json_text(declined_body(offers[handle]))) && prepared.execution_router is None,
{
}

/// A queue that is full says how many offers may wait.
pub proof fn law_full_queue_tells_its_size()
    ensures
        queue_full().code is InternalError,
        queue_full().data matches Some(data) && data.unsigned_field("maximum_pending"@) == Some(
            MAX_PENDING_OVERLAY_DELETE_CONFIRMATIONS as u64,
        ),
{
}

/// A confirmation that is refused is refused with the reason, and never runs.
pub proof fn law_refused_confirmations_tell_why<R>(
    offers: Map<Seq<char>, PendingView<R>>,
    tool_name: Seq<char>,
    args: JsonView,
    responses: Option<Map<Seq<char>, JsonView>>,
    handle: Seq<char>,
    prepared: Result<PreparedAdapterToolCall<R>, AdapterError>,
)
    requires
        redeemed(offers, tool_name, args, responses, handle, prepared),
    ensures
        retry_verdict(offer_at(offers, handle), tool_name, args, responses) matches Verdict::Refuse(
            reason,
        ) ==> (prepared matches Err(e) && e.code is InvalidParams && e.message@ == reason),
        !offers.contains_key(handle) ==> prepared is Err,
        responses is None ==> prepared is Err,
{
}

/// A handle has hyphens at four places, and hexadecimal digits at all others.
pub proof fn law_handles_are_written_in_groups(handle: Seq<char>)
    requires
        is_uuid(handle),
    ensures
        handle.len() == 36,
        handle[8] == '-' && handle[13] == '-' && handle[18] == '-' && handle[23] == '-',
        forall|i: int|
            0 <= i < 36 && i != 8 && i != 13 && i != 18 && i != 23 ==> is_hex_digit(
                #[trigger] handle[i],
            ),
        handle[14] == '4',
{
}

} // verus!
