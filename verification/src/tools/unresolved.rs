//! Calls that a symbol makes to names that resolve to nothing.

use vstd::prelude::*;
use vstd::string::*;

use crate::json::{items_view, no_fields, Json, JsonObject, JsonView};
use crate::text::{
    after_last, comes_before, decimal, join_texts, joined, lemma_text_before_is_dense,
    lemma_text_before_is_total, push_decimal, same_text, str_view, string_view, strings_view,
    text_after_last, text_before, trim, trimmed,
};
use crate::tools::call_graph::places_view;
use crate::tools::symbols::{line_number, shown_line};

verus! {

/// How many places a hint names.
pub const MAX_HINT_PLACES: usize = 3;

/// A call to a name that resolves to nothing.
pub struct UnresolvedCall {
    pub name: String,
    pub text: String,
    /// The identifier of the file.
    pub file_id: String,
    /// The path of the file.
    pub file: String,
    pub start_line: u32,
    pub start_column: u32,
}

/// Whether a call is to a target: by its name, by its text, or by the last part of
/// its name.
pub open spec fn calls_target(call: UnresolvedCall, target: Seq<char>) -> bool {
    call.name@ == target || call.text@ == target || after_last(call.name@, "::"@) == target
        || after_last(call.name@, "."@) == target
}

/// Whether a call is asked for.
pub open spec fn is_asked_for(call: UnresolvedCall, target: Option<Seq<char>>) -> bool {
    match target {
        Some(t) => calls_target(call, t),
        None => true,
    }
}

/// Whether two calls are the same for the reader: to the same name, on one line.
pub open spec fn same_call(a: UnresolvedCall, b: UnresolvedCall) -> bool {
    a.file_id@ == b.file_id@ && a.name@ == b.name@ && shown_line(a.start_line) == shown_line(
        b.start_line,
    )
}

/// Whether one of the calls at some places is the same as a call.
pub open spec fn is_among(calls: Seq<UnresolvedCall>, places: Seq<int>, at: int) -> bool {
    exists|i: int| 0 <= i < places.len() && same_call(calls[#[trigger] places[i]], calls[at])
}

/// The places of the calls that are asked for, each call once.
pub open spec fn asked_places(
    calls: Seq<UnresolvedCall>,
    target: Option<Seq<char>>,
    n: nat,
) -> Seq<int>
    decreases n,
{
    if n == 0 {
        Seq::empty()
    } else {
        let before = asked_places(calls, target, (n - 1) as nat);
        if is_asked_for(calls[n - 1], target) && !is_among(calls, before, n - 1) {
            before.push(n - 1)
        } else {
            before
        }
    }
}

/// Whether one call is listed before another: by file, then by line.
pub open spec fn call_before(a: UnresolvedCall, b: UnresolvedCall) -> bool {
    text_before(a.file@, b.file@) || a.file@ == b.file@ && shown_line(a.start_line) < shown_line(
        b.start_line,
    )
}

/// Where a call goes in a list: behind the last call that it does not come before.
pub open spec fn slot(calls: Seq<UnresolvedCall>, places: Seq<int>, at: int) -> int
    decreases places.len(),
{
    if places.len() == 0 {
        0
    } else if call_before(calls[at], calls[places.last()]) {
        slot(calls, places.drop_last(), at)
    } else {
        places.len() as int
    }
}

/// The places in the order in which their calls are listed; equal calls keep their
/// order.
pub open spec fn in_order(calls: Seq<UnresolvedCall>, places: Seq<int>) -> Seq<int>
    decreases places.len(),
{
    if places.len() == 0 {
        Seq::empty()
    } else {
        let before = in_order(calls, places.drop_last());
        before.insert(slot(calls, before, places.last()), places.last())
    }
}

/// A target without the white space around it, where something is left.
pub open spec fn cleaned(target: Option<Seq<char>>) -> Option<Seq<char>> {
    match target {
        Some(t) => if trimmed(t).len() > 0 {
            Some(trimmed(t))
        } else {
            None
        },
        None => None,
    }
}

/// The places of the calls that are listed for a target, in order.
pub open spec fn listed_places(
    calls: Seq<UnresolvedCall>,
    target: Option<Seq<char>>,
) -> Seq<int> {
    in_order(calls, asked_places(calls, cleaned(target), calls.len()))
}

/// Whether all places are places of calls.
pub open spec fn in_range(places: Seq<usize>, n: nat) -> bool {
    forall|i: int| 0 <= i < places.len() ==> (#[trigger] places[i]) < n
}

fn is_same_call(a: &UnresolvedCall, b: &UnresolvedCall) -> (same: bool)
    ensures
        same == same_call(*a, *b),
{
    same_text(a.file_id.as_str(), b.file_id.as_str()) && same_text(
        a.name.as_str(),
        b.name.as_str(),
    ) && line_number(a.start_line) == line_number(b.start_line)
}

fn check_asked(call: &UnresolvedCall, target: &Option<String>) -> (asked: bool)
    ensures
        asked == is_asked_for(*call, string_view(*target)),
{
    match target {
        Some(t) => {
            same_text(call.name.as_str(), t.as_str()) || same_text(call.text.as_str(), t.as_str())
                || same_text(text_after_last(call.name.as_str(), "::").as_str(), t.as_str())
                || same_text(text_after_last(call.name.as_str(), ".").as_str(), t.as_str())
        },
        None => true,
    }
}

fn check_among(calls: &Vec<UnresolvedCall>, places: &Vec<usize>, at: usize) -> (among: bool)
    requires
        in_range(places@, calls@.len()),
        at < calls@.len(),
    ensures
        among == is_among(calls@, places_view(places@), at as int),
{
    let mut i: usize = 0;
    while i < places.len()
        invariant
            i <= places@.len(),
            in_range(places@, calls@.len()),
            at < calls@.len(),
            forall|j: int|
                0 <= j < i ==> !same_call(
                    calls@[#[trigger] places_view(places@)[j]],
                    calls@[at as int],
                ),
        decreases places@.len() - i,
    {
        if is_same_call(&calls[places[i]], &calls[at]) {
            proof {
                assert(places_view(places@)[i as int] == places@[i as int]);
            }
            return true;
        }
        i = i + 1;
    }
    false
}

fn find_asked(calls: &Vec<UnresolvedCall>, target: &Option<String>) -> (places: Vec<usize>)
    ensures
        places_view(places@) == asked_places(calls@, string_view(*target), calls@.len()),
        in_range(places@, calls@.len()),
{
    let mut places: Vec<usize> = Vec::new();
    let mut i: usize = 0;
    proof {
        assert(places_view(places@) =~= Seq::empty());
    }
    while i < calls.len()
        invariant
            i <= calls@.len(),
            in_range(places@, calls@.len()),
            places_view(places@) == asked_places(calls@, string_view(*target), i as nat),
        decreases calls@.len() - i,
    {
        if check_asked(&calls[i], target) && !check_among(calls, &places, i) {
            let ghost before = places@;
            places.push(i);
            proof {
                assert(places_view(places@) =~= places_view(before).push(i as int));
            }
        }
        i = i + 1;
    }
    places
}

fn is_before(a: &UnresolvedCall, b: &UnresolvedCall) -> (before: bool)
    ensures
        before == call_before(*a, *b),
{
    comes_before(a.file.as_str(), b.file.as_str()) || same_text(a.file.as_str(), b.file.as_str())
        && line_number(a.start_line) < line_number(b.start_line)
}

fn find_slot(calls: &Vec<UnresolvedCall>, places: &Vec<usize>, at: usize) -> (k: usize)
    requires
        in_range(places@, calls@.len()),
        at < calls@.len(),
    ensures
        k == slot(calls@, places_view(places@), at as int),
        k <= places@.len(),
{
    let mut k: usize = places.len();
    proof {
        assert(places@.take(k as int) =~= places@);
    }
    while k > 0
        invariant
            k <= places@.len(),
            in_range(places@, calls@.len()),
            at < calls@.len(),
            slot(calls@, places_view(places@), at as int) == slot(
                calls@,
                places_view(places@.take(k as int)),
                at as int,
            ),
        decreases k,
    {
        proof {
            let now = places_view(places@.take(k as int));
            assert(now.last() == places@[k - 1]);
            assert(now.drop_last() =~= places_view(places@.take(k - 1)));
        }
        if !is_before(&calls[at], &calls[places[k - 1]]) {
            return k;
        }
        k = k - 1;
    }
    k
}

fn sort_places(calls: &Vec<UnresolvedCall>, places: &Vec<usize>) -> (sorted: Vec<usize>)
    requires
        in_range(places@, calls@.len()),
    ensures
        places_view(sorted@) == in_order(calls@, places_view(places@)),
        in_range(sorted@, calls@.len()),
{
    let mut sorted: Vec<usize> = Vec::new();
    let mut i: usize = 0;
    proof {
        assert(places_view(places@.take(0)) =~= Seq::empty());
        assert(places_view(sorted@) =~= Seq::empty());
    }
    while i < places.len()
        invariant
            i <= places@.len(),
            in_range(places@, calls@.len()),
            in_range(sorted@, calls@.len()),
            places_view(sorted@) == in_order(calls@, places_view(places@.take(i as int))),
        decreases places@.len() - i,
    {
        let at: usize = places[i];
        let k: usize = find_slot(calls, &sorted, at);
        let ghost before = sorted@;
        sorted.insert(k, at);
        proof {
            let next = places_view(places@.take(i + 1));
            assert(next.drop_last() =~= places_view(places@.take(i as int)));
            assert(next.last() == at);
            assert(places_view(sorted@) =~= places_view(before).insert(k as int, at as int));
            assert forall|j: int| 0 <= j < sorted@.len() implies (#[trigger] sorted@[j])
                < calls@.len() by {
                if j < k {
                    assert(sorted@[j] == before[j]);
                } else if j > k {
                    assert(sorted@[j] == before[j - 1]);
                }
            }
        }
        i = i + 1;
    }
    proof {
        assert(places@.take(i as int) =~= places@);
    }
    sorted
}

fn clean_target(target: Option<&str>) -> (cleaned_target: Option<String>)
    ensures
        string_view(cleaned_target) == cleaned(str_view(target)),
{
    match target {
        Some(t) => {
            let inner = trim(t);
            if inner.as_str().is_empty() {
                None
            } else {
                Some(inner)
            }
        },
        None => None,
    }
}

fn list_places(calls: &Vec<UnresolvedCall>, target: Option<&str>) -> (places: Vec<usize>)
    ensures
        places_view(places@) == listed_places(calls@, str_view(target)),
        in_range(places@, calls@.len()),
{
    let wanted = clean_target(target);
    let asked = find_asked(calls, &wanted);
    sort_places(calls, &asked)
}

/// A call as it is listed.
pub open spec fn call_view(call: UnresolvedCall) -> JsonView {
    JsonView::Object(
        no_fields().insert("name"@, JsonView::Str(call.name@)).insert(
            "text"@,
            JsonView::Str(call.text@),
        ).insert("file"@, JsonView::Str(call.file@)).insert(
            "line"@,
            JsonView::Unsigned(shown_line(call.start_line) as u64),
        ).insert("column"@, JsonView::Unsigned(call.start_column as u64)).insert(
            "kind"@,
            JsonView::Str("unresolved_call"@),
        ).insert("resolution"@, JsonView::Str("unresolved"@)),
    )
}

/// The first calls at some places, as they are listed.
pub open spec fn calls_view(
    calls: Seq<UnresolvedCall>,
    places: Seq<int>,
    limit: nat,
) -> Seq<JsonView> {
    Seq::new(
        if places.len() < limit {
            places.len()
        } else {
            limit
        },
        |i: int| call_view(calls[places[i]]),
    )
}

fn call_to_json(call: &UnresolvedCall) -> (json: Json)
    ensures
        json@ == call_view(*call),
{
    let mut object = JsonObject::new();
    object.put("name", Json::text(call.name.as_str()));
    object.put("text", Json::text(call.text.as_str()));
    object.put("file", Json::text(call.file.as_str()));
    object.put("line", Json::Unsigned(line_number(call.start_line) as u64));
    object.put("column", Json::Unsigned(call.start_column as u64));
    object.put("kind", Json::text("unresolved_call"));
    object.put("resolution", Json::text("unresolved"));
    Json::Object(object)
}

/// The unresolved calls that are listed, and how many there are in all.
pub fn unresolved_call_refs_json(calls: &Vec<UnresolvedCall>, limit: usize) -> (found: (
    Vec<Json>,
    usize,
))
    ensures
        items_view(found.0@) == calls_view(
            calls@,
            listed_places(calls@, None),
            limit as nat,
        ),
        found.1 == listed_places(calls@, None).len(),
{
    unresolved_call_refs_json_filtered(calls, limit, None)
}

/// The unresolved calls of a target that are listed, and how many there are in all;
/// the calls of any target, where none is named.
pub fn unresolved_call_refs_json_filtered(
    calls: &Vec<UnresolvedCall>,
    limit: usize,
    target_name: Option<&str>,
) -> (found: (Vec<Json>, usize))
    ensures
        items_view(found.0@) == calls_view(
            calls@,
            listed_places(calls@, str_view(target_name)),
            limit as nat,
        ),
        found.1 == listed_places(calls@, str_view(target_name)).len(),
{
    let places = list_places(calls, target_name);
    let ghost listed = listed_places(calls@, str_view(target_name));
    let mut items: Vec<Json> = Vec::new();
    let mut i: usize = 0;
    while i < places.len() && i < limit
        invariant
            i <= places@.len(),
            i <= limit,
            items@.len() == i,
            in_range(places@, calls@.len()),
            listed == places_view(places@),
            forall|j: int|
                0 <= j < i ==> (#[trigger] items@[j])@ == call_view(calls@[listed[j]]),
        decreases places@.len() - i,
    {
        items.push(call_to_json(&calls[places[i]]));
        i = i + 1;
    }
    proof {
        assert(items_view(items@) =~= calls_view(calls@, listed, limit as nat));
    }
    (items, places.len())
}

/// Where a call is.
pub open spec fn call_location(call: UnresolvedCall) -> Seq<char> {
    call.file@ + ":"@ + decimal(shown_line(call.start_line) as nat) + ":"@ + decimal(
        call.start_column as nat,
    )
}

/// Where the first calls at some places are.
pub open spec fn call_locations(
    calls: Seq<UnresolvedCall>,
    places: Seq<int>,
    limit: nat,
) -> Seq<Seq<char>> {
    Seq::new(
        if places.len() < limit {
            places.len()
        } else {
            limit
        },
        |i: int| call_location(calls[places[i]]),
    )
}

/// What is said of the calls that a hint does not name.
pub open spec fn more_calls(total: nat) -> Seq<char> {
    if total > MAX_HINT_PLACES {
        " and "@ + decimal((total - MAX_HINT_PLACES) as nat) + " more callsite(s)"@
    } else {
        Seq::empty()
    }
}

/// What a request is told whose target is called by the source but not known.
pub open spec fn target_hint(calls: Seq<UnresolvedCall>, target: Seq<char>) -> Option<Seq<char>> {
    let places = listed_places(calls, Some(target));
    if places.len() == 0 {
        None
    } else {
        Some(
            " Target '"@ + target + "' appears as an unresolved call token from the source at "@
                + joined(call_locations(calls, places, MAX_HINT_PLACES as nat), ", "@)
                + more_calls(places.len())
                + ". This is usually an external helper, macro, builtin, or a symbol outside the current focus/full index. Use calls(direction=\"outgoing\") to inspect unresolved_callees, or trace(kind=\"point\") at the callsite. path/trace forward require both endpoints to resolve to local symbols."@,
        )
    }
}

fn location_text(call: &UnresolvedCall) -> (text: String)
    ensures
        text@ == call_location(*call),
{
    let mut text = call.file.clone();
    text.append(":");
    push_decimal(&mut text, line_number(call.start_line) as u64);
    text.append(":");
    push_decimal(&mut text, call.start_column as u64);
    text
}

/// What a request is told whose target is called by the source but not known.
pub fn unresolved_call_target_hint(calls: &Vec<UnresolvedCall>, target_name: &str) -> (hint: Option<
    String,
>)
    ensures
        string_view(hint) == target_hint(calls@, target_name@),
{
    let places = list_places(calls, Some(target_name));
    let total: usize = places.len();
    if total == 0 {
        return None;
    }
    let ghost listed = listed_places(calls@, Some(target_name@));
    let mut locations: Vec<String> = Vec::new();
    let mut i: usize = 0;
    while i < places.len() && i < MAX_HINT_PLACES
        invariant
            i <= places@.len(),
            i <= MAX_HINT_PLACES,
            locations@.len() == i,
            in_range(places@, calls@.len()),
            listed == places_view(places@),
            forall|j: int|
                0 <= j < i ==> (#[trigger] locations@[j])@ == call_location(calls@[listed[j]]),
        decreases places@.len() - i,
    {
        locations.push(location_text(&calls[places[i]]));
        i = i + 1;
    }
    proof {
        assert(strings_view(locations@) =~= call_locations(
            calls@,
            listed,
            MAX_HINT_PLACES as nat,
        ));
    }
    let mut text = " Target '".to_owned();
    text.append(target_name);
    text.append("' appears as an unresolved call token from the source at ");
    text.append(join_texts(&locations, ", ").as_str());
    let ghost named = text@;
    if total > MAX_HINT_PLACES {
        text.append(" and ");
        push_decimal(&mut text, (total - MAX_HINT_PLACES) as u64);
        text.append(" more callsite(s)");
    }
    proof {
        assert(text@ =~= named + more_calls(listed.len()));
    }
    text.append(
        ". This is usually an external helper, macro, builtin, or a symbol outside the current focus/full index. Use calls(direction=\"outgoing\") to inspect unresolved_callees, or trace(kind=\"point\") at the callsite. path/trace forward require both endpoints to resolve to local symbols.",
    );
    Some(text)
}

proof fn lemma_order(a: UnresolvedCall, b: UnresolvedCall, c: UnresolvedCall)
    ensures
        call_before(a, b) ==> !call_before(b, a),
        call_before(a, c) ==> call_before(a, b) || call_before(b, c),
{
    lemma_text_before_is_total(a.file@, b.file@);
    lemma_text_before_is_total(b.file@, c.file@);
    lemma_text_before_is_total(a.file@, c.file@);
    lemma_text_before_is_dense(a.file@, b.file@, c.file@);
}

proof fn lemma_slot(calls: Seq<UnresolvedCall>, places: Seq<int>, at: int)
    ensures
        0 <= slot(calls, places, at) <= places.len(),
        forall|i: int|
            slot(calls, places, at) <= i < places.len() ==> call_before(
                calls[at],
                calls[#[trigger] places[i]],
            ),
        slot(calls, places, at) > 0 ==> !call_before(
            calls[at],
            calls[places[slot(calls, places, at) - 1]],
        ),
    decreases places.len(),
{
    if places.len() > 0 && call_before(calls[at], calls[places.last()]) {
        lemma_slot(calls, places.drop_last(), at);
        assert forall|i: int| slot(calls, places, at) <= i < places.len() implies call_before(
            calls[at],
            calls[#[trigger] places[i]],
        ) by {
            if i < places.len() - 1 {
                assert(places.drop_last()[i] == places[i]);
            }
        }
    }
}

/// Whether calls stand in the order of files and lines.
pub open spec fn is_ordered(calls: Seq<UnresolvedCall>, places: Seq<int>) -> bool {
    forall|i: int, j: int|
        0 <= i < j < places.len() ==> !call_before(
            calls[#[trigger] places[j]],
            calls[#[trigger] places[i]],
        )
}

proof fn lemma_in_order(calls: Seq<UnresolvedCall>, places: Seq<int>)
    ensures
        is_ordered(calls, in_order(calls, places)),
        in_order(calls, places).to_multiset() == places.to_multiset(),
        in_order(calls, places).len() == places.len(),
    decreases places.len(),
{
    if places.len() > 0 {
        let rest = places.drop_last();
        let at = places.last();
        lemma_in_order(calls, rest);
        let before = in_order(calls, rest);
        let k = slot(calls, before, at);
        let all = before.insert(k, at);
        lemma_slot(calls, before, at);
        assert forall|i: int, j: int| 0 <= i < j < all.len() implies !call_before(
            calls[#[trigger] all[j]],
            calls[#[trigger] all[i]],
        ) by {
            if j == k {
                assert(all[i] == before[i]);
                if i < k - 1 {
                    assert(!call_before(calls[before[k - 1]], calls[before[i]]));
                }
                lemma_order(calls[at], calls[before[k - 1]], calls[before[i]]);
            } else if i == k {
                assert(all[j] == before[j - 1]);
                lemma_order(calls[at], calls[before[j - 1]], calls[at]);
            } else {
                let x = if i < k { i } else { i - 1 };
                let y = if j < k { j } else { j - 1 };
                assert(all[i] == before[x] && all[j] == before[y]);
            }
        }
        broadcast use vstd::seq_lib::group_to_multiset_ensures;

        assert(places =~= rest.push(at));
        assert(all.to_multiset() =~= places.to_multiset());
    } else {
        assert(in_order(calls, places) =~= places);
    }
}

/// Unresolved calls are listed by file and line, and ordering them neither loses
/// nor repeats one.
pub proof fn law_unresolved_calls_are_ordered(
    calls: Seq<UnresolvedCall>,
    target: Option<Seq<char>>,
)
    ensures
        is_ordered(calls, listed_places(calls, target)),
        listed_places(calls, target).to_multiset() == asked_places(
            calls,
            cleaned(target),
            calls.len(),
        ).to_multiset(),
{
    lemma_in_order(calls, asked_places(calls, cleaned(target), calls.len()));
}

proof fn lemma_asked(calls: Seq<UnresolvedCall>, target: Option<Seq<char>>, n: nat)
    requires
        n <= calls.len(),
    ensures
        ({
            let places = asked_places(calls, target, n);
            &&& forall|i: int|
                0 <= i < places.len() ==> 0 <= #[trigger] places[i] < n && is_asked_for(
                    calls[places[i]],
                    target,
                )
            &&& forall|i: int, j: int|
                0 <= i < j < places.len() ==> !same_call(
                    calls[#[trigger] places[i]],
                    calls[#[trigger] places[j]],
                )
            &&& forall|at: int|
                0 <= at < n && #[trigger] is_asked_for(calls[at], target) ==> is_among(
                    calls,
                    places,
                    at,
                )
        }),
    decreases n,
{
    if n > 0 {
        lemma_asked(calls, target, (n - 1) as nat);
        let before = asked_places(calls, target, (n - 1) as nat);
        let places = asked_places(calls, target, n);
        assert forall|at: int|
            0 <= at < n && #[trigger] is_asked_for(calls[at], target) implies is_among(
            calls,
            places,
            at,
        ) by {
            if at < n - 1 {
                assert(is_among(calls, before, at));
                let i = choose|i: int|
                    0 <= i < before.len() && same_call(calls[#[trigger] before[i]], calls[at]);
                assert(places[i] == before[i]);
            } else if is_among(calls, before, n - 1) {
                let i = choose|i: int|
                    0 <= i < before.len() && same_call(calls[#[trigger] before[i]], calls[at]);
                assert(places[i] == before[i]);
            } else {
                assert(places[before.len() as int] == n - 1);
            }
        }
        assert forall|i: int, j: int| 0 <= i < j < places.len() implies !same_call(
            calls[#[trigger] places[i]],
            calls[#[trigger] places[j]],
        ) by {
            assert(places[i] == before[i]);
            if j < before.len() {
                assert(places[j] == before[j]);
            }
        }
    }
}

/// Every unresolved call that is asked for is found, and none twice.
pub proof fn law_unresolved_calls_are_found_once(
    calls: Seq<UnresolvedCall>,
    target: Option<Seq<char>>,
)
    ensures
        ({
            let places = asked_places(calls, target, calls.len());
            &&& forall|i: int|
                0 <= i < places.len() ==> is_asked_for(calls[#[trigger] places[i]], target)
            &&& forall|i: int, j: int|
                0 <= i < j < places.len() ==> !same_call(
                    calls[#[trigger] places[i]],
                    calls[#[trigger] places[j]],
                )
            &&& forall|at: int|
                0 <= at < calls.len() && #[trigger] is_asked_for(calls[at], target) ==> is_among(
                    calls,
                    places,
                    at,
                )
        }),
{
    lemma_asked(calls, target, calls.len());
}

proof fn lemma_asked_places_rise(calls: Seq<UnresolvedCall>, target: Option<Seq<char>>, n: nat)
    requires
        n <= calls.len(),
    ensures
        rises(asked_places(calls, target, n)),
        forall|i: int|
            0 <= i < asked_places(calls, target, n).len() ==> 0 <= #[trigger] asked_places(
                calls,
                target,
                n,
            )[i] < n,
    decreases n,
{
    if n > 0 {
        lemma_asked_places_rise(calls, target, (n - 1) as nat);
        let before = asked_places(calls, target, (n - 1) as nat);
        let places = asked_places(calls, target, n);
        assert forall|i: int| 0 <= i < places.len() implies 0 <= #[trigger] places[i] < n by {
            if i < before.len() {
                assert(places[i] == before[i]);
            }
        }
        assert forall|i: int, j: int| 0 <= i < j < places.len() implies #[trigger] places[i]
            < #[trigger] places[j] by {
            assert(places[i] == before[i]);
            if j < before.len() {
                assert(places[j] == before[j]);
            }
        }
    }
}

spec fn rises(places: Seq<int>) -> bool {
    forall|i: int, j: int| 0 <= i < j < places.len() ==> #[trigger] places[i] < #[trigger] places[j]
}

/// Whether calls that none of the two comes before stand in the order of their places.
pub open spec fn is_stable(calls: Seq<UnresolvedCall>, places: Seq<int>) -> bool {
    forall|i: int, j: int|
        0 <= i < j < places.len() && !call_before(
            calls[#[trigger] places[i]],
            calls[#[trigger] places[j]],
        ) ==> places[i] < places[j]
}

proof fn lemma_in_order_is_stable(calls: Seq<UnresolvedCall>, places: Seq<int>)
    requires
        rises(places),
    ensures
        is_stable(calls, in_order(calls, places)),
        forall|i: int|
            0 <= i < in_order(calls, places).len() ==> places.contains(
                #[trigger] in_order(calls, places)[i],
            ),
    decreases places.len(),
{
    if places.len() > 0 {
        let rest = places.drop_last();
        let at = places.last();
        assert(rises(rest));
        lemma_in_order_is_stable(calls, rest);
        let before = in_order(calls, rest);
        let k = slot(calls, before, at);
        let all = before.insert(k, at);
        lemma_slot(calls, before, at);
        assert forall|i: int| 0 <= i < before.len() implies #[trigger] before[i] < at by {
            assert(rest.contains(before[i]));
            let r = choose|r: int| 0 <= r < rest.len() && rest[r] == before[i];
            assert(places[r] < places[places.len() - 1]);
        }
        assert forall|i: int| 0 <= i < all.len() implies places.contains(#[trigger] all[i]) by {
            if i == k {
                assert(places[places.len() - 1] == at);
            } else {
                let x = if i < k { i } else { i - 1 };
                assert(all[i] == before[x]);
                assert(rest.contains(before[x]));
                let r = choose|r: int| 0 <= r < rest.len() && rest[r] == before[x];
                assert(places[r] == all[i]);
            }
        }
        assert forall|i: int, j: int|
            0 <= i < j < all.len() && !call_before(
                calls[#[trigger] all[i]],
                calls[#[trigger] all[j]],
            ) implies all[i] < all[j] by {
            if j == k {
                assert(all[i] == before[i]);
            } else if i == k {
                assert(all[j] == before[j - 1]);
            } else {
                let x = if i < k { i } else { i - 1 };
                let y = if j < k { j } else { j - 1 };
                assert(all[i] == before[x] && all[j] == before[y]);
            }
        }
    }
}

/// Calls that stand on the same line of the same file are listed in the order in which
/// they were found.
pub proof fn law_calls_on_one_line_keep_their_order(
    calls: Seq<UnresolvedCall>,
    target: Option<Seq<char>>,
)
    ensures
        is_stable(calls, listed_places(calls, target)),
{
    lemma_asked_places_rise(calls, cleaned(target), calls.len());
    lemma_in_order_is_stable(calls, asked_places(calls, cleaned(target), calls.len()));
}

/// Whether a listed value tells a call.
pub open spec fn tells_call(listed: JsonView, call: UnresolvedCall) -> bool {
    &&& listed.text_field("name"@) == Some(call.name@)
    &&& listed.text_field("text"@) == Some(call.text@)
    &&& listed.text_field("file"@) == Some(call.file@)
    &&& call.start_line < u32::MAX ==> listed.unsigned_field("line"@) == Some(
        (call.start_line + 1) as u64,
    )
    &&& listed.unsigned_field("column"@) == Some(call.start_column as u64)
    &&& listed.text_field("resolution"@) == Some("unresolved"@)
}

/// The calls at the first places are listed, in the order of the places, as far as the
/// limit goes.
pub proof fn law_first_calls_are_listed(
    calls: Seq<UnresolvedCall>,
    places: Seq<int>,
    limit: nat,
)
    ensures
        ({
            let listed = calls_view(calls, places, limit);
            &&& listed.len() <= limit
            &&& listed.len() <= places.len()
            &&& listed.len() == limit || listed.len() == places.len()
            &&& forall|i: int|
                0 <= i < listed.len() ==> tells_call(#[trigger] listed[i], calls[places[i]])
        }),
{
    reveal_strlit("name");
    reveal_strlit("text");
    reveal_strlit("file");
    reveal_strlit("line");
    reveal_strlit("column");
    reveal_strlit("kind");
    reveal_strlit("resolution");
    assert("name"@[0] != "text"@[0]);
    assert("name"@[0] != "file"@[0]);
    assert("name"@[0] != "line"@[0]);
    assert("name"@.len() != "column"@.len());
    assert("name"@[0] != "kind"@[0]);
    assert("name"@.len() != "resolution"@.len());
    assert("text"@[0] != "file"@[0]);
    assert("text"@[0] != "line"@[0]);
    assert("text"@.len() != "column"@.len());
    assert("text"@[0] != "kind"@[0]);
    assert("text"@.len() != "resolution"@.len());
    assert("file"@[0] != "line"@[0]);
    assert("file"@.len() != "column"@.len());
    assert("file"@[0] != "kind"@[0]);
    assert("file"@.len() != "resolution"@.len());
    assert("line"@.len() != "column"@.len());
    assert("line"@[0] != "kind"@[0]);
    assert("line"@.len() != "resolution"@.len());
    assert("column"@.len() != "kind"@.len());
    assert("column"@.len() != "resolution"@.len());
    assert("kind"@.len() != "resolution"@.len());
    let listed = calls_view(calls, places, limit);
    assert forall|i: int| 0 <= i < listed.len() implies tells_call(
        #[trigger] listed[i],
        calls[places[i]],
    ) by {
        assert(listed[i] == call_view(calls[places[i]]));
    }
}

/// A call is told by its file, its line counted from one, and its column.
pub proof fn law_calls_are_located(call: UnresolvedCall)
    requires
        call.start_line < u32::MAX,
    ensures
        call_location(call) == joined(
            seq![
                call.file@,
                decimal((call.start_line + 1) as nat),
                decimal(call.start_column as nat),
            ],
            ":"@,
        ),
{
    let parts = seq![
        call.file@,
        decimal((call.start_line + 1) as nat),
        decimal(call.start_column as nat),
    ];
    assert(parts.drop_last() =~= seq![parts[0], parts[1]]);
    assert(seq![parts[0], parts[1]].drop_last() =~= seq![parts[0]]);
    reveal_with_fuel(joined, 3);
}

/// A target is hinted at exactly where the source calls it. The hint holds the target, where
/// the first calls are, in order, and how many there are besides.
pub proof fn law_called_targets_are_hinted_at(calls: Seq<UnresolvedCall>, target: Seq<char>)
    ensures
        ({
            let places = listed_places(calls, Some(target));
            let located = call_locations(calls, places, MAX_HINT_PLACES as nat);
            &&& target_hint(calls, target) is None <==> places.len() == 0
            &&& target_hint(calls, target) matches Some(hint) ==> crate::text::holds_text(
                hint,
                target,
            ) && crate::text::holds_text(hint, joined(located, ", "@)) && (places.len()
                > MAX_HINT_PLACES ==> crate::text::holds_text(
                hint,
                decimal((places.len() - MAX_HINT_PLACES) as nat) + " more callsite(s)"@,
            ))
            &&& located.len() == if places.len() < MAX_HINT_PLACES {
                places.len() as int
            } else {
                MAX_HINT_PLACES as int
            }
            &&& forall|i: int|
                0 <= i < located.len() ==> #[trigger] located[i] == call_location(
                    calls[places[i]],
                )
        }),
{
    let places = listed_places(calls, Some(target));
    let located = call_locations(calls, places, MAX_HINT_PLACES as nat);
    if places.len() > 0 {
        let hint = target_hint(calls, target)->Some_0;
        let start = " Target '"@;
        let middle = "' appears as an unresolved call token from the source at "@;
        let list = joined(located, ", "@);
        let more = more_calls(places.len());
        let end =
            ". This is usually an external helper, macro, builtin, or a symbol outside the current focus/full index. Use calls(direction=\"outgoing\") to inspect unresolved_callees, or trace(kind=\"point\") at the callsite. path/trace forward require both endpoints to resolve to local symbols."@;
        assert(hint =~= start + target + middle + list + more + end);
        crate::text::law_text_holds_its_parts(start, target, middle + list + more + end);
        assert(hint =~= start + target + (middle + list + more + end));
        crate::text::law_text_holds_its_parts(start + target + middle, list, more + end);
        assert(hint =~= start + target + middle + list + (more + end));
        if places.len() > MAX_HINT_PLACES {
            let rest = decimal((places.len() - MAX_HINT_PLACES) as nat) + " more callsite(s)"@;
            crate::text::law_text_holds_its_parts(
                start + target + middle + list + " and "@,
                rest,
                end,
            );
            assert(hint =~= start + target + middle + list + " and "@ + rest + end);
        }
    }
}

proof fn lemma_last_part(name: Seq<char>, before: Seq<char>, separator: Seq<char>, target: Seq<char>)
    requires
        name == before + separator + target,
        forall|later: int|
            before.len() < later ==> !#[trigger] crate::text::occurs_at(name, separator, later),
    ensures
        after_last(name, separator) == target,
{
    crate::text::law_text_holds_its_parts(before, separator, target);
    crate::text::law_part_after_the_last_separator(name, separator);
    let at = choose|at: int| #[trigger]
        crate::text::occurs_at(name, separator, at) && name == name.take(at) + separator
            + after_last(name, separator) && forall|later: int|
            at < later ==> !#[trigger] crate::text::occurs_at(name, separator, later);
    let here = before.len() as int;
    assert(name.subrange(here, here + separator.len()) =~= separator);
    assert(crate::text::occurs_at(name, separator, here));
    assert(at == here);
    let part = after_last(name, separator);
    let whole = name.take(at) + separator + part;
    assert(whole.skip(here + separator.len()) =~= part);
    assert(name.skip(here + separator.len()) =~= target);
}

proof fn lemma_last_part_after_colons(name: Seq<char>, before: Seq<char>, target: Seq<char>)
    requires
        name == before + "::"@ + target,
        !crate::text::holds_text(":"@ + target, "::"@),
    ensures
        after_last(name, "::"@) == target,
{
    reveal_strlit("::");
    reveal_strlit(":");
    let rest = ":"@ + target;
    assert forall|later: int| before.len() < later implies !#[trigger] crate::text::occurs_at(
        name,
        "::"@,
        later,
    ) by {
        if crate::text::occurs_at(name, "::"@, later) {
            let shifted = later - before.len() - 1;
            assert(rest.subrange(shifted, shifted + 2) =~= name.subrange(later, later + 2));
            assert(crate::text::occurs_at(rest, "::"@, shifted));
        }
    }
    lemma_last_part(name, before, "::"@, target);
}

proof fn lemma_last_part_after_a_dot(name: Seq<char>, before: Seq<char>, target: Seq<char>)
    requires
        name == before + "."@ + target,
        !crate::text::holds_text(target, "."@),
    ensures
        after_last(name, "."@) == target,
{
    reveal_strlit(".");
    assert forall|later: int| before.len() < later implies !#[trigger] crate::text::occurs_at(
        name,
        "."@,
        later,
    ) by {
        if crate::text::occurs_at(name, "."@, later) {
            let shifted = later - before.len() - 1;
            assert(target.subrange(shifted, shifted + 1) =~= name.subrange(later, later + 1));
            assert(crate::text::occurs_at(target, "."@, shifted));
        }
    }
    lemma_last_part(name, before, "."@, target);
}

/// A call is asked for where its name or its text is the target, or where the target is what
/// follows the last separator of its name; without a target every call is.
pub proof fn law_calls_are_found_by_their_last_part(
    call: UnresolvedCall,
    target: Seq<char>,
    before: Seq<char>,
)
    ensures
        is_asked_for(call, None),
        call.name@ == target || call.text@ == target ==> is_asked_for(call, Some(target)),
        call.name@ == before + "::"@ + target && !crate::text::holds_text(":"@ + target, "::"@)
            ==> is_asked_for(call, Some(target)),
        call.name@ == before + "."@ + target && !crate::text::holds_text(target, "."@)
            ==> is_asked_for(call, Some(target)),
        is_asked_for(call, Some(target)) ==> call.text@ == target || target.is_suffix_of(
            call.name@,
        ),
{
    let name = call.name@;
    if name == before + "::"@ + target && !crate::text::holds_text(":"@ + target, "::"@) {
        lemma_last_part_after_colons(name, before, target);
    }
    if name == before + "."@ + target && !crate::text::holds_text(target, "."@) {
        lemma_last_part_after_a_dot(name, before, target);
    }
    lemma_after_last_is_a_suffix(name, "::"@);
    lemma_after_last_is_a_suffix(name, "."@);
    assert(name.subrange(0, name.len() as int) =~= name);
}

proof fn lemma_after_last_is_a_suffix(s: Seq<char>, separator: Seq<char>)
    ensures
        after_last(s, separator).is_suffix_of(s),
{
    crate::text::law_part_after_the_last_separator(s, separator);
    let part = after_last(s, separator);
    if crate::text::holds_text(s, separator) {
        let at = choose|at: int| #[trigger]
            crate::text::occurs_at(s, separator, at) && s == s.take(at) + separator + after_last(
                s,
                separator,
            ) && forall|later: int|
                at < later ==> !#[trigger] crate::text::occurs_at(s, separator, later);
        let whole = s.take(at) + separator + part;
        assert(whole.subrange(whole.len() - part.len(), whole.len() as int) =~= part);
    } else {
        assert(s.subrange(0, s.len() as int) =~= s);
    }
}

/// Unresolved calls are listed file by file in the order of dictionaries, and line by line
/// within a file.
pub proof fn law_unresolved_calls_are_listed_by_file_and_line(
    calls: Seq<UnresolvedCall>,
    target: Option<Seq<char>>,
    i: int,
    j: int,
)
    requires
        0 <= i < j < listed_places(calls, target).len(),
    ensures
        ({
            let places = listed_places(calls, target);
            let (first, second) = (calls[places[i]], calls[places[j]]);
            &&& !text_before(second.file@, first.file@)
            &&& first.file@ == second.file@ ==> first.start_line <= second.start_line
                || second.start_line >= u32::MAX - 1
        }),
{
    law_unresolved_calls_are_ordered(calls, target);
}

/// A target that is blank asks for every call, and any other for what it says without the
/// white space around it.
pub proof fn law_blank_targets_ask_for_every_call(target: Seq<char>, call: UnresolvedCall)
    ensures
        trimmed(target).len() == 0 ==> is_asked_for(call, cleaned(Some(target))),
        trimmed(target).len() > 0 ==> cleaned(Some(target)) == Some(trimmed(target)),
        is_asked_for(call, cleaned(None)),
        more_calls(target.len()).len() == 0 <==> target.len() <= MAX_HINT_PLACES,
{
    reveal_strlit(" and ");
}

} // verus!
