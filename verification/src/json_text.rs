//! Reading and writing JSON text, through `serde_json`.

use vstd::prelude::*;

use crate::json::{fields_of, items_view, json_view, signed_view, Decimal, Json, JsonObject, JsonView};

verus! {

/// `serde_json::Value`.
#[verifier::external_type_specification]
#[verifier::external_body]
pub struct ExValue(serde_json::Value);

/// What a `serde_json::Value` holds.
pub uninterp spec fn value_holds(value: serde_json::Value) -> JsonView;

/// What `serde_json::from_str` reads from a text: nothing, where the text is not JSON.
pub uninterp spec fn json_parsed(text: Seq<char>) -> Option<JsonView>;

/// What `serde_json::to_string` writes.
pub uninterp spec fn json_text(value: JsonView) -> Seq<char>;

/// What `serde_json::to_string_pretty` writes.
pub uninterp spec fn json_pretty_text(value: JsonView) -> Seq<char>;

/// Whether `==` on `serde_json::Value` holds between two values.
pub uninterp spec fn json_equal(a: JsonView, b: JsonView) -> bool;

/// Whether a value holds no number but integers, and nests arrays and objects at
/// most `levels` deep.
pub open spec fn exact_within(value: JsonView, levels: nat) -> bool
    decreases levels,
{
    match value {
        JsonView::Float(_) => false,
        JsonView::Array(items) => levels > 0 && forall|i: int|
            0 <= i < items.len() ==> exact_within(#[trigger] items[i], (levels - 1) as nat),
        JsonView::Object(fields) => levels > 0 && forall|name: Seq<char>| #[trigger]
            fields.contains_key(name) ==> exact_within(fields[name], (levels - 1) as nat),
        _ => true,
    }
}

/// Whether a value holds no number but integers and is not nested deeper than
/// `serde_json` reads.
pub open spec fn exact(value: JsonView) -> bool {
    exact_within(value, 127)
}

/// The outermost layer of a `serde_json::Value`.
pub enum ValueParts {
    Null,
    Bool(bool),
    Unsigned(u64),
    Signed(i64),
    Float(Decimal),
    Text(String),
    Items(Vec<serde_json::Value>),
    Fields(Vec<(String, serde_json::Value)>),
}

/// What each of a list of `serde_json::Value`s holds.
pub open spec fn values_hold(values: Seq<serde_json::Value>) -> Seq<JsonView> {
    Seq::new(values.len(), |i: int| value_holds(values[i]))
}

/// The object with the given fields; of two with one name, the later counts.
pub open spec fn pairs_hold(pairs: Seq<(String, serde_json::Value)>) -> Map<Seq<char>, JsonView>
    decreases pairs.len(),
{
    if pairs.len() == 0 {
        Map::empty()
    } else {
        pairs_hold(pairs.drop_last()).insert(pairs.last().0@, value_holds(pairs.last().1))
    }
}

/// What the value with the given outermost layer is.
pub open spec fn parts_hold(parts: ValueParts) -> JsonView {
    match parts {
        ValueParts::Null => JsonView::Null,
        ValueParts::Bool(b) => JsonView::Bool(b),
        ValueParts::Unsigned(n) => JsonView::Unsigned(n),
        ValueParts::Signed(n) => signed_view(n),
        ValueParts::Float(n) => JsonView::Float(n),
        ValueParts::Text(s) => JsonView::Str(s@),
        ValueParts::Items(items) => JsonView::Array(values_hold(items@)),
        ValueParts::Fields(fields) => JsonView::Object(pairs_hold(fields@)),
    }
}

/// Takes a `serde_json::Value` apart by its variants; `Map::into_iter` hands out
/// the fields of an object, each name once. A number is told apart by
/// `Number::as_u64` and `Number::as_i64`, which answer for integers only.
#[verifier::external_body]
fn open_value(value: serde_json::Value) -> (parts: ValueParts)
    ensures
        parts_hold(parts) == value_holds(value),
        parts matches ValueParts::Fields(fields) ==> forall|i: int, j: int|
            #![trigger fields@[i], fields@[j]]
            0 <= i < j < fields@.len() ==> fields@[i].0@ != fields@[j].0@,
{
    match value {
        serde_json::Value::Null => ValueParts::Null,
        serde_json::Value::Bool(b) => ValueParts::Bool(b),
        serde_json::Value::Number(n) => match (n.as_u64(), n.as_i64()) {
            (Some(unsigned), _) => ValueParts::Unsigned(unsigned),
            (None, Some(signed)) => ValueParts::Signed(signed),
            (None, None) => ValueParts::Float(Decimal { number: n }),
        },
        serde_json::Value::String(s) => ValueParts::Text(s),
        serde_json::Value::Array(items) => ValueParts::Items(items),
        serde_json::Value::Object(fields) => ValueParts::Fields(fields.into_iter().collect()),
    }
}

/// Puts a `serde_json::Value` together from its outermost layer; collecting into
/// a `Map` keeps the later of two fields with one name.
#[verifier::external_body]
fn close_value(parts: ValueParts) -> (value: serde_json::Value)
    ensures
        value_holds(value) == parts_hold(parts),
{
    match parts {
        ValueParts::Null => serde_json::Value::Null,
        ValueParts::Bool(b) => serde_json::Value::Bool(b),
        ValueParts::Unsigned(n) => serde_json::Value::from(n),
        ValueParts::Signed(n) => serde_json::Value::from(n),
        ValueParts::Float(n) => serde_json::Value::Number(n.number),
        ValueParts::Text(s) => serde_json::Value::String(s),
        ValueParts::Items(items) => serde_json::Value::Array(items),
        ValueParts::Fields(fields) => serde_json::Value::Object(fields.into_iter().collect()),
    }
}

/// `serde_json::from_str` into a `serde_json::Value`. What it reads is named,
/// not described.
#[verifier::external_body]
fn read_value(text: &str) -> (value: Option<serde_json::Value>)
    ensures
        match value {
            Some(v) => json_parsed(text@) == Some(value_holds(v)),
            None => json_parsed(text@) is None,
        },
{
    serde_json::from_str::<serde_json::Value>(text).ok()
}

/// `serde_json::to_string`, which does not fail on a `serde_json::Value`. What it
/// writes is named; besides, reading the text back gives the value, provided
/// that it holds no number but integers and is not nested too deep to be read.
#[verifier::external_body]
fn write_value(value: &serde_json::Value) -> (text: String)
    ensures
        text@ == json_text(value_holds(*value)),
        exact(value_holds(*value)) ==> json_parsed(text@) == Some(value_holds(*value)),
{
    serde_json::to_string(value).unwrap_or_default()
}

/// `serde_json::to_string_pretty`, which does not fail on a `serde_json::Value`.
/// What it writes is named; it can be read back as what `to_string` writes can.
#[verifier::external_body]
fn write_value_pretty(value: &serde_json::Value) -> (text: String)
    ensures
        text@ == json_pretty_text(value_holds(*value)),
        exact(value_holds(*value)) ==> json_parsed(text@) == Some(value_holds(*value)),
{
    serde_json::to_string_pretty(value).unwrap_or_default()
}

/// `==` on `serde_json::Value`: it holds of every value and itself, and on values
/// without numbers but integers it is equality. Two numbers that are no integers
/// are compared as floating-point numbers, which is named, not described.
#[verifier::external_body]
fn same_value(a: &serde_json::Value, b: &serde_json::Value) -> (same: bool)
    ensures
        same == json_equal(value_holds(*a), value_holds(*b)),
        value_holds(*a) == value_holds(*b) ==> same,
        exact(value_holds(*a)) ==> same == (value_holds(*a) == value_holds(*b)),
{
    a == b
}

/// The JSON value that a `serde_json::Value` holds.
pub fn from_value(value: serde_json::Value) -> (json: Json)
    ensures
        json@ == value_holds(value),
    decreases value_holds(value),
{
    match open_value(value) {
        ValueParts::Null => Json::Null,
        ValueParts::Bool(b) => Json::Bool(b),
        ValueParts::Unsigned(n) => Json::Unsigned(n),
        ValueParts::Signed(n) => Json::Signed(n),
        ValueParts::Float(n) => Json::Float(n),
        ValueParts::Text(s) => Json::Str(s),
        ValueParts::Items(mut items) => {
            let ghost all = items@;
            let mut reversed: Vec<Json> = Vec::new();
            while items.len() > 0
                invariant
                    value_holds(value) == JsonView::Array(values_hold(all)),
                    items@ == all.take(items@.len() as int),
                    items@.len() + reversed@.len() == all.len(),
                    forall|j: int|
                        0 <= j < reversed@.len() ==> (#[trigger] reversed@[j])@ == value_holds(
                            all[all.len() - 1 - j],
                        ),
                decreases items@.len(),
            {
                let ghost n = items@.len() - 1;
                match items.pop() {
                    Some(last) => {
                        proof {
                            assert(last == all[n]);
                            let held = value_holds(value);
                            assert(held->Array_0[n] == value_holds(last));
                            assert(decreases_to!(held => held->Array_0[n]));
                            assert(items@ =~= all.take(n));
                        }
                        reversed.push(from_value(last));
                    },
                    None => {},
                }
            }
            let mut out: Vec<Json> = Vec::new();
            while reversed.len() > 0
                invariant
                    reversed@.len() + out@.len() == all.len(),
                    forall|j: int|
                        0 <= j < reversed@.len() ==> (#[trigger] reversed@[j])@ == value_holds(
                            all[all.len() - 1 - j],
                        ),
                    forall|j: int|
                        0 <= j < out@.len() ==> (#[trigger] out@[j])@ == value_holds(all[j]),
                decreases reversed@.len(),
            {
                match reversed.pop() {
                    Some(next) => {
                        out.push(next);
                    },
                    None => {},
                }
            }
            proof {
                assert(items_view(out@) =~= values_hold(all));
            }
            Json::Array(out)
        },
        ValueParts::Fields(mut fields) => {
            let ghost all = fields@;
            proof {
                lemma_pairs_hold(all);
            }
            let mut object = JsonObject::new();
            while fields.len() > 0
                invariant
                    value_holds(value) == JsonView::Object(pairs_hold(all)),
                    fields@ == all.take(fields@.len() as int),
                    fields@.len() <= all.len(),
                    forall|i: int, j: int|
                        #![trigger all[i], all[j]]
                        0 <= i < j < all.len() ==> all[i].0@ != all[j].0@,
                    forall|j: int|
                        #![trigger all[j]]
                        0 <= j < all.len() ==> pairs_hold(all).contains_key(all[j].0@)
                            && pairs_hold(all)[all[j].0@] == value_holds(all[j].1),
                    forall|name: Seq<char>| #[trigger]
                        object@.contains_key(name) ==> pairs_hold(all).contains_key(name)
                            && object@[name] == pairs_hold(all)[name],
                    forall|j: int|
                        #![trigger all[j]]
                        fields@.len() <= j < all.len() ==> object@.contains_key(all[j].0@),
                decreases fields@.len(),
            {
                let ghost n = fields@.len() - 1;
                match fields.pop() {
                    Some(last) => {
                        let (name, inner) = last;
                        proof {
                            assert(all[n] == (name, inner));
                            assert(fields@ =~= all.take(n));
                            let held = value_holds(value);
                            assert(held->Object_0[name@] == value_holds(inner));
                            assert(decreases_to!(held => held->Object_0[name@]));
                        }
                        let json = from_value(inner);
                        object.put(name.as_str(), json);
                    },
                    None => {},
                }
            }
            proof {
                assert(object@ =~= pairs_hold(all)) by {
                    assert forall|name: Seq<char>| pairs_hold(all).contains_key(name) implies #[trigger] object@.contains_key(name) by {
                        lemma_pairs_hold(all);
                        let j = choose|j: int| 0 <= j < all.len() && #[trigger] all[j].0@ == name;
                        assert(object@.contains_key(all[j].0@));
                    }
                }
            }
            Json::Object(object)
        },
    }
}

/// The `serde_json::Value` that holds the given JSON value.
pub fn to_value(json: &Json) -> (value: serde_json::Value)
    ensures
        value_holds(value) == json@,
    decreases json@,
{
    match json {
        Json::Null => close_value(ValueParts::Null),
        Json::Bool(b) => close_value(ValueParts::Bool(*b)),
        Json::Unsigned(n) => close_value(ValueParts::Unsigned(*n)),
        Json::Signed(n) => close_value(ValueParts::Signed(*n)),
        Json::Float(n) => close_value(ValueParts::Float(Decimal { number: n.number.clone() })),
        Json::Str(s) => close_value(ValueParts::Text(s.clone())),
        Json::Array(items) => {
            let mut values: Vec<serde_json::Value> = Vec::new();
            let mut i: usize = 0;
            while i < items.len()
                invariant
                    i <= items@.len(),
                    values@.len() == i,
                    json@ == JsonView::Array(items_view(items@)),
                    forall|j: int| 0 <= j < i ==> value_holds(#[trigger] values@[j]) == items@[j]@,
                decreases items@.len() - i,
            {
                proof {
                    assert(json@->Array_0[i as int] == items@[i as int]@);
                    assert(decreases_to!(json@ => json@->Array_0[i as int]));
                }
                values.push(to_value(&items[i]));
                i = i + 1;
            }
            proof {
                assert(values_hold(values@) =~= items_view(items@));
            }
            close_value(ValueParts::Items(values))
        },
        Json::Object(object) => {
            let mut pairs: Vec<(String, serde_json::Value)> = Vec::new();
            let mut i: usize = 0;
            let n: usize = object.len();
            proof {
                object.lemma_listing();
                assert(object.listing().take(0) =~= Seq::empty());
            }
            while i < n
                invariant
                    i <= n,
                    n == object@.dom().len(),
                    json@ == JsonView::Object(object@),
                    pairs@.len() == i,
                    pairs_hold(pairs@) == fields_of(object.listing().take(i as int)),
                    object.listing().len() == n,
                decreases n - i,
            {
                let (name, inner) = object.field_at(i);
                proof {
                    assert(json@->Object_0[name@] == inner@);
                    assert(decreases_to!(json@ => json@->Object_0[name@]));
                }
                let ghost before = pairs@;
                pairs.push((name.to_owned(), to_value(inner)));
                proof {
                    assert(pairs@.drop_last() =~= before);
                    assert(object.listing().take(i + 1).drop_last() =~= object.listing().take(
                        i as int,
                    ));
                }
                i = i + 1;
            }
            proof {
                assert(object.listing().take(n as int) =~= object.listing());
            }
            close_value(ValueParts::Fields(pairs))
        },
    }
}

/// The JSON value that a text denotes, if it is JSON.
pub fn parse_json(text: &str) -> (json: Option<Json>)
    ensures
        json_view(json) == json_parsed(text@),
{
    match read_value(text) {
        Some(value) => Some(from_value(value)),
        None => None,
    }
}

/// The compact text of a JSON value.
pub fn json_to_string(json: &Json) -> (text: String)
    ensures
        text@ == json_text(json@),
        exact(json@) ==> json_parsed(text@) == Some(json@),
{
    write_value(&to_value(json))
}

/// The indented text of a JSON value.
pub fn json_to_string_pretty(json: &Json) -> (text: String)
    ensures
        text@ == json_pretty_text(json@),
        exact(json@) ==> json_parsed(text@) == Some(json@),
{
    write_value_pretty(&to_value(json))
}

/// Whether two JSON values count as equal: they are the same, or they hold
/// numbers that are no integers and `serde_json` finds them equal.
pub open spec fn json_same(a: JsonView, b: JsonView) -> bool {
    a == b || (!exact(a) && json_equal(a, b))
}

/// Whether two JSON values are equal.
pub fn same_json(a: &Json, b: &Json) -> (same: bool)
    ensures
        same == json_same(a@, b@),
{
    same_value(&to_value(a), &to_value(b))
}

proof fn lemma_pairs_hold(pairs: Seq<(String, serde_json::Value)>)
    requires
        forall|i: int, j: int|
            #![trigger pairs[i], pairs[j]]
            0 <= i < j < pairs.len() ==> pairs[i].0@ != pairs[j].0@,
    ensures
        forall|j: int|
            #![trigger pairs[j]]
            0 <= j < pairs.len() ==> pairs_hold(pairs).contains_key(pairs[j].0@) && pairs_hold(
                pairs,
            )[pairs[j].0@] == value_holds(pairs[j].1),
        forall|name: Seq<char>| #[trigger]
            pairs_hold(pairs).contains_key(name) ==> exists|j: int|
                0 <= j < pairs.len() && #[trigger] pairs[j].0@ == name,
    decreases pairs.len(),
{
    if pairs.len() > 0 {
        let rest = pairs.drop_last();
        let n = pairs.len() - 1;
        assert forall|i: int, j: int|
            #![trigger rest[i], rest[j]]
            0 <= i < j < rest.len() implies rest[i].0@ != rest[j].0@ by {
            assert(rest[i] == pairs[i] && rest[j] == pairs[j]);
        }
        lemma_pairs_hold(rest);
        assert forall|j: int|
            #![trigger pairs[j]]
            0 <= j < pairs.len() implies pairs_hold(pairs).contains_key(pairs[j].0@) && pairs_hold(
            pairs,
        )[pairs[j].0@] == value_holds(pairs[j].1) by {
            if j < n {
                assert(rest[j] == pairs[j]);
                assert(pairs[j].0@ != pairs[n].0@);
            }
        }
        assert forall|name: Seq<char>| #[trigger] pairs_hold(pairs).contains_key(name) implies exists|
            j: int,
        | 0 <= j < pairs.len() && #[trigger] pairs[j].0@ == name by {
            if name == pairs[n].0@ {
            } else {
                assert(pairs_hold(rest).contains_key(name));
                let j = choose|j: int| 0 <= j < rest.len() && #[trigger] rest[j].0@ == name;
                assert(pairs[j].0@ == name);
            }
        }
    }
}

} // verus!
