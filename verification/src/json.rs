//! JSON values: the executable type, its mathematical model, and the accessors
//! that tool handlers read arguments with.

use vstd::prelude::*;

use crate::text::{same_text, str_view};

verus! {

/// What a JSON value is, mathematically. Objects are maps: the order in which
/// fields were written is not part of the value.
#[verifier::ext_equal]
pub enum JsonView {
    Null,
    Bool(bool),
    Unsigned(u64),
    Negative(i64),
    Float(Decimal),
    Str(Seq<char>),
    Array(Seq<JsonView>),
    Object(Map<Seq<char>, JsonView>),
}

/// `serde_json::Number`, carried through for numbers that are no integers.
#[verifier::external_type_specification]
#[verifier::external_body]
pub struct ExNumber(serde_json::Number);

/// A number that is neither a `u64` nor an `i64`. It comes from reading a JSON
/// text or a `serde_json::Value`, and is handed back unchanged.
pub struct Decimal {
    pub(crate) number: serde_json::Number,
}

/// A JSON value.
pub enum Json {
    Null,
    Bool(bool),
    /// A non-negative integer.
    Unsigned(u64),
    /// A signed integer.
    Signed(i64),
    /// Any other number.
    Float(Decimal),
    Str(String),
    Array(Vec<Json>),
    Object(JsonObject),
}

/// A JSON object: fields with pairwise distinct names.
pub struct JsonObject {
    fields: Vec<(String, Json)>,
}

/// What a signed integer is: there is one representation of each number.
pub open spec fn signed_view(n: i64) -> JsonView {
    if n < 0 {
        JsonView::Negative(n)
    } else {
        JsonView::Unsigned(n as u64)
    }
}

/// What each element of a list of JSON values is.
pub open spec fn items_view(items: Seq<Json>) -> Seq<JsonView>
    decreases items,
{
    Seq::new(items.len(), |i: int| if 0 <= i < items.len() { items[i].view() } else { arbitrary() })
}

/// What an optional JSON value is.
pub open spec fn json_view(value: Option<Json>) -> Option<JsonView> {
    match value {
        Some(v) => Some(v.view()),
        None => None,
    }
}

/// What an optional reference to a JSON value points at.
pub open spec fn json_ref_view(value: Option<&Json>) -> Option<JsonView> {
    match value {
        Some(v) => Some(v.view()),
        None => None,
    }
}

impl JsonView {
    /// The field `name`, where the value is an object that has it.
    pub open spec fn field(self, name: Seq<char>) -> Option<JsonView> {
        match self {
            JsonView::Object(fields) => if fields.contains_key(name) {
                Some(fields[name])
            } else {
                None
            },
            _ => None,
        }
    }

    /// The characters of a string value.
    pub open spec fn text(self) -> Option<Seq<char>> {
        match self {
            JsonView::Str(s) => Some(s),
            _ => None,
        }
    }

    /// The truth value of a boolean.
    pub open spec fn boolean(self) -> Option<bool> {
        match self {
            JsonView::Bool(b) => Some(b),
            _ => None,
        }
    }

    /// The number, where it is a non-negative integer.
    pub open spec fn unsigned(self) -> Option<u64> {
        match self {
            JsonView::Unsigned(n) => Some(n),
            _ => None,
        }
    }

    /// The elements of an array.
    pub open spec fn items(self) -> Option<Seq<JsonView>> {
        match self {
            JsonView::Array(items) => Some(items),
            _ => None,
        }
    }

    /// The characters of the string field `name`.
    pub open spec fn text_field(self, name: Seq<char>) -> Option<Seq<char>> {
        match self.field(name) {
            Some(v) => v.text(),
            None => None,
        }
    }

    /// The boolean field `name`.
    pub open spec fn bool_field(self, name: Seq<char>) -> Option<bool> {
        match self.field(name) {
            Some(v) => v.boolean(),
            None => None,
        }
    }

    /// The non-negative integer field `name`.
    pub open spec fn unsigned_field(self, name: Seq<char>) -> Option<u64> {
        match self.field(name) {
            Some(v) => v.unsigned(),
            None => None,
        }
    }
}

impl Json {
    /// The value that this represents.
    pub open spec fn view(self) -> JsonView
        decreases self,
    {
        match self {
            Json::Null => JsonView::Null,
            Json::Bool(b) => JsonView::Bool(b),
            Json::Unsigned(n) => JsonView::Unsigned(n),
            Json::Signed(n) => signed_view(n),
            Json::Float(n) => JsonView::Float(n),
            Json::Str(s) => JsonView::Str(s@),
            Json::Array(items) => JsonView::Array(items_view(items@)),
            Json::Object(o) => JsonView::Object(o.view()),
        }
    }

    /// A string value.
    pub fn text(s: &str) -> (value: Json)
        ensures
            value@ == JsonView::Str(s@),
    {
        Json::Str(s.to_owned())
    }

    /// A count.
    pub fn count(n: usize) -> (value: Json)
        ensures
            value@ == JsonView::Unsigned(n as u64),
    {
        Json::Unsigned(n as u64)
    }

    /// An array without elements.
    pub fn empty_array() -> (value: Json)
        ensures
            value@ == JsonView::Array(Seq::empty()),
    {
        let none: Vec<Json> = Vec::new();
        proof {
            assert(items_view(none@) =~= Seq::empty());
        }
        Json::Array(none)
    }

    /// The field `name`, where this is an object that has it.
    pub fn get(&self, name: &str) -> (value: Option<&Json>)
        ensures
            json_ref_view(value) == self@.field(name@),
    {
        match self {
            Json::Object(o) => o.get(name),
            _ => None,
        }
    }

    /// The text of a string value.
    pub fn as_str(&self) -> (text: Option<&str>)
        ensures
            str_view(text) == self@.text(),
    {
        match self {
            Json::Str(s) => Some(s.as_str()),
            _ => None,
        }
    }

    /// The truth value of a boolean.
    pub fn as_bool(&self) -> (value: Option<bool>)
        ensures
            value == self@.boolean(),
    {
        match self {
            Json::Bool(b) => Some(*b),
            _ => None,
        }
    }

    /// The number, where it is a non-negative integer.
    pub fn as_u64(&self) -> (value: Option<u64>)
        ensures
            value == self@.unsigned(),
    {
        match self {
            Json::Unsigned(n) => Some(*n),
            Json::Signed(n) => if *n < 0 {
                None
            } else {
                Some(*n as u64)
            },
            _ => None,
        }
    }

    /// The elements of an array.
    pub fn as_array(&self) -> (items: Option<&Vec<Json>>)
        ensures
            match items {
                Some(v) => self@ == JsonView::Array(items_view(v@)),
                None => !(self@ is Array),
            },
    {
        match self {
            Json::Array(v) => Some(v),
            _ => None,
        }
    }

    /// Whether this is an object.
    pub fn is_object(&self) -> (yes: bool)
        ensures
            yes == (self@ is Object),
    {
        match self {
            Json::Object(_) => true,
            _ => false,
        }
    }

    /// The text of the string field `name`.
    pub fn get_str(&self, name: &str) -> (text: Option<&str>)
        ensures
            str_view(text) == self@.text_field(name@),
    {
        match self.get(name) {
            Some(v) => v.as_str(),
            None => None,
        }
    }

    /// The boolean field `name`.
    pub fn get_bool(&self, name: &str) -> (value: Option<bool>)
        ensures
            value == self@.bool_field(name@),
    {
        match self.get(name) {
            Some(v) => v.as_bool(),
            None => None,
        }
    }

    /// The non-negative integer field `name`.
    pub fn get_u64(&self, name: &str) -> (value: Option<u64>)
        ensures
            value == self@.unsigned_field(name@),
    {
        match self.get(name) {
            Some(v) => v.as_u64(),
            None => None,
        }
    }
}

/// `serde_json::Number::clone` returns the same number.
pub assume_specification[ <serde_json::Number as Clone>::clone ](n: &serde_json::Number) -> (copy:
    serde_json::Number)
    ensures
        copy == *n,
;

impl Clone for Json {
    fn clone(&self) -> (copy: Json)
        ensures
            copy@ == self@,
        decreases self,
    {
        match self {
            Json::Null => Json::Null,
            Json::Bool(b) => Json::Bool(*b),
            Json::Unsigned(n) => Json::Unsigned(*n),
            Json::Signed(n) => Json::Signed(*n),
            Json::Float(n) => Json::Float(Decimal { number: n.number.clone() }),
            Json::Str(s) => Json::Str(s.clone()),
            Json::Array(items) => {
                let mut copied: Vec<Json> = Vec::new();
                let mut i: usize = 0;
                while i < items.len()
                    invariant
                        i <= items@.len(),
                        copied@.len() == i,
                        forall|j: int| 0 <= j < i ==> (#[trigger] copied@[j])@ == items@[j]@,
                        self matches Json::Array(v) && v == items,
                    decreases items@.len() - i,
                {
                    copied.push(items[i].clone());
                    i = i + 1;
                }
                proof {
                    assert(items_view(copied@) =~= items_view(items@));
                }
                Json::Array(copied)
            },
            Json::Object(o) => Json::Object(o.clone()),
        }
    }
}

impl Clone for JsonObject {
    fn clone(&self) -> (copy: JsonObject)
        ensures
            copy@ == self@,
        decreases self,
    {
        proof {
            use_type_invariant(self);
            assert(self.fields@.take(0) =~= Seq::empty());
        }
        let mut copied: Vec<(String, Json)> = Vec::new();
        let mut i: usize = 0;
        while i < self.fields.len()
            invariant
                i <= self.fields@.len(),
                copied@.len() == i,
                forall|j: int|
                    0 <= j < i ==> (#[trigger] copied@[j]).0@ == self.fields@[j].0@ && copied@[j].1@
                        == self.fields@[j].1@,
                fields_view(copied@) == fields_view(self.fields@.take(i as int)),
            decreases self.fields@.len() - i,
        {
            let ghost before = copied@;
            let name = self.fields[i].0.clone();
            let value = self.fields[i].1.clone();
            copied.push((name, value));
            proof {
                assert(copied@.drop_last() =~= before);
                assert(self.fields@.take(i + 1).drop_last() =~= self.fields@.take(i as int));
            }
            i = i + 1;
        }
        proof {
            assert(self.fields@.take(i as int) =~= self.fields@);
            assert forall|a: int, b: int|
                #![trigger copied@[a], copied@[b]]
                0 <= a < b < copied@.len() implies copied@[a].0@ != copied@[b].0@ by {
                assert(self.fields@[a].0@ != self.fields@[b].0@);
            }
        }
        JsonObject { fields: copied }
    }
}

/// The object that results from setting the given fields in order.
pub open spec fn fields_of(pairs: Seq<(Seq<char>, JsonView)>) -> Map<Seq<char>, JsonView>
    decreases pairs.len(),
{
    if pairs.len() == 0 {
        Map::empty()
    } else {
        fields_of(pairs.drop_last()).insert(pairs.last().0, pairs.last().1)
    }
}

/// The empty set of object fields.
pub open spec fn no_fields() -> Map<Seq<char>, JsonView> {
    Map::empty()
}

spec fn fields_view(fields: Seq<(String, Json)>) -> Map<Seq<char>, JsonView>
    decreases fields,
{
    if fields.len() == 0 {
        Map::empty()
    } else {
        fields_view(fields.drop_last()).insert(fields.last().0@, fields.last().1.view())
    }
}

spec fn distinct_names(fields: Seq<(String, Json)>) -> bool {
    forall|i: int, j: int|
        #![trigger fields[i], fields[j]]
        0 <= i < j < fields.len() ==> fields[i].0@ != fields[j].0@
}

proof fn lemma_fields_view(fields: Seq<(String, Json)>)
    requires
        distinct_names(fields),
    ensures
        forall|i: int|
            #![trigger fields[i]]
            0 <= i < fields.len() ==> fields_view(fields).contains_key(fields[i].0@) && fields_view(
                fields,
            )[fields[i].0@] == fields[i].1.view(),
        forall|name: Seq<char>| #[trigger]
            fields_view(fields).contains_key(name) ==> exists|i: int|
                0 <= i < fields.len() && #[trigger] fields[i].0@ == name,
        fields_view(fields).dom().finite(),
        fields_view(fields).dom().len() == fields.len(),
    decreases fields.len(),
{
    if fields.len() > 0 {
        let rest = fields.drop_last();
        assert forall|i: int, j: int|
            #![trigger rest[i], rest[j]]
            0 <= i < j < rest.len() implies rest[i].0@ != rest[j].0@ by {
            assert(rest[i] == fields[i] && rest[j] == fields[j]);
        }
        lemma_fields_view(rest);
        let last = fields.last();
        let n = fields.len() - 1;
        assert(!fields_view(rest).contains_key(last.0@)) by {
            if fields_view(rest).contains_key(last.0@) {
                let i = choose|i: int| 0 <= i < rest.len() && #[trigger] rest[i].0@ == last.0@;
                assert(fields[i] == rest[i] && fields[n] == last);
            }
        }
        assert forall|i: int|
            #![trigger fields[i]]
            0 <= i < fields.len() implies fields_view(fields).contains_key(fields[i].0@)
            && fields_view(fields)[fields[i].0@] == fields[i].1.view() by {
            if i < n {
                assert(rest[i] == fields[i]);
                assert(fields[i].0@ != fields[n].0@);
            }
        }
        assert forall|name: Seq<char>| #[trigger] fields_view(fields).contains_key(name) implies exists|
            i: int,
        | 0 <= i < fields.len() && #[trigger] fields[i].0@ == name by {
            if name == last.0@ {
                assert(fields[n].0@ == name);
            } else {
                assert(fields_view(rest).contains_key(name));
                let i = choose|i: int| 0 <= i < rest.len() && #[trigger] rest[i].0@ == name;
                assert(fields[i].0@ == name);
            }
        }
        assert(fields_view(fields).dom() =~= fields_view(rest).dom().insert(last.0@));
    }
}

spec fn names_and_views(fields: Seq<(String, Json)>) -> Seq<(Seq<char>, JsonView)> {
    Seq::new(fields.len(), |i: int| (fields[i].0@, fields[i].1@))
}

proof fn lemma_fields_of(fields: Seq<(String, Json)>)
    ensures
        fields_of(names_and_views(fields)) == fields_view(fields),
    decreases fields.len(),
{
    if fields.len() > 0 {
        lemma_fields_of(fields.drop_last());
        assert(names_and_views(fields).drop_last() =~= names_and_views(fields.drop_last()));
    }
}

impl JsonObject {
    /// The fields, by name.
    pub closed spec fn view(self) -> Map<Seq<char>, JsonView>
        decreases self,
    {
        fields_view(self.fields@)
    }

    #[verifier::type_invariant]
    spec fn names_are_distinct(self) -> bool {
        distinct_names(self.fields@)
    }

    /// An object without fields.
    pub fn new() -> (object: Self)
        ensures
            object@ == no_fields(),
    {
        JsonObject { fields: Vec::new() }
    }

    /// The number of fields.
    pub fn len(&self) -> (n: usize)
        ensures
            n == self@.dom().len(),
            n == self.listing().len(),
            self@.dom().finite(),
    {
        proof {
            use_type_invariant(self);
            lemma_fields_view(self.fields@);
        }
        self.fields.len()
    }

    /// The fields, in the order in which they are stored.
    pub closed spec fn listing(self) -> Seq<(Seq<char>, JsonView)> {
        Seq::new(self.fields@.len(), |i: int| (self.fields@[i].0@, self.fields@[i].1@))
    }

    /// Setting the stored fields one after the other gives the object.
    pub proof fn lemma_listing(self)
        ensures
            fields_of(self.listing()) == self@,
    {
        lemma_fields_of(self.fields@);
        assert(self.listing() =~= names_and_views(self.fields@));
    }

    /// The `i`-th stored field.
    pub fn field_at(&self, i: usize) -> (field: (&str, &Json))
        requires
            i < self@.dom().len(),
        ensures
            self@.contains_key(field.0@),
            self@[field.0@] == field.1@,
            self.listing()[i as int] == (field.0@, field.1@),
    {
        proof {
            use_type_invariant(self);
            lemma_fields_view(self.fields@);
        }
        let field = &self.fields[i];
        (field.0.as_str(), &field.1)
    }

    fn position(&self, name: &str) -> (found: Option<usize>)
        ensures
            match found {
                Some(i) => i < self.fields@.len() && self.fields@[i as int].0@ == name@
                    && self@.contains_key(name@) && self@[name@] == self.fields@[i as int].1@,
                None => !self@.contains_key(name@),
            },
    {
        proof {
            use_type_invariant(self);
            lemma_fields_view(self.fields@);
        }
        let mut i: usize = 0;
        while i < self.fields.len()
            invariant
                i <= self.fields@.len(),
                forall|j: int| 0 <= j < i ==> (#[trigger] self.fields@[j]).0@ != name@,
                distinct_names(self.fields@),
            decreases self.fields@.len() - i,
        {
            if same_text(self.fields[i].0.as_str(), name) {
                proof {
                    lemma_fields_view(self.fields@);
                }
                return Some(i);
            }
            i = i + 1;
        }
        proof {
            lemma_fields_view(self.fields@);
        }
        None
    }

    /// The value of the field `name`.
    pub fn get(&self, name: &str) -> (value: Option<&Json>)
        ensures
            json_ref_view(value) == JsonView::Object(self@).field(name@),
    {
        match self.position(name) {
            Some(i) => Some(&self.fields[i].1),
            None => None,
        }
    }

    /// Sets the field `name`, whether or not it is there.
    pub fn put(&mut self, name: &str, value: Json)
        ensures
            final(self)@ == old(self)@.insert(name@, value@),
    {
        proof {
            use_type_invariant(&*self);
            lemma_fields_view(self.fields@);
        }
        let found = self.position(name);
        let mut fields: Vec<(String, Json)> = Vec::new();
        std::mem::swap(&mut fields, &mut self.fields);
        let ghost before = fields@;
        match found {
            Some(i) => {
                fields.set(i, (name.to_owned(), value));
                proof {
                    assert forall|a: int, b: int|
                        #![trigger fields@[a], fields@[b]]
                        0 <= a < b < fields@.len() implies fields@[a].0@ != fields@[b].0@ by {
                        assert(before[a].0@ != before[b].0@);
                    }
                    lemma_fields_view(fields@);
                    assert(fields_view(fields@) =~= fields_view(before).insert(name@, value@)) by {
                        assert forall|k: Seq<char>|
                            fields_view(fields@).contains_key(k) <==> fields_view(before).insert(
                                name@,
                                value@,
                            ).contains_key(k) by {
                            if fields_view(fields@).contains_key(k) {
                                let j = choose|j: int|
                                    0 <= j < fields@.len() && #[trigger] fields@[j].0@ == k;
                                if j != i {
                                    assert(before[j].0@ == k);
                                }
                            }
                            if fields_view(before).contains_key(k) && k != name@ {
                                let j = choose|j: int|
                                    0 <= j < before.len() && #[trigger] before[j].0@ == k;
                                assert(fields@[j].0@ == k);
                            }
                            assert(fields@[i as int].0@ == name@);
                        }
                        assert forall|k: Seq<char>| fields_view(fields@).contains_key(k) implies fields_view(
                            fields@,
                        )[k] == fields_view(before).insert(name@, value@)[k] by {
                            let j = choose|j: int|
                                0 <= j < fields@.len() && #[trigger] fields@[j].0@ == k;
                            if j != i {
                                assert(before[j].0@ == k);
                                assert(fields@[j].0@ != fields@[i as int].0@);
                            }
                        }
                    }
                }
            },
            None => {
                fields.push((name.to_owned(), value));
                proof {
                    assert(fields@.drop_last() =~= before);
                    assert forall|a: int, b: int|
                        #![trigger fields@[a], fields@[b]]
                        0 <= a < b < fields@.len() implies fields@[a].0@ != fields@[b].0@ by {
                        assert(before[a].0@ == fields@[a].0@);
                        assert(fields_view(before).contains_key(before[a].0@));
                        if b < before.len() {
                            assert(before[b].0@ == fields@[b].0@);
                        }
                    }
                }
            },
        }
        self.fields = fields;
    }

    /// Removes the field `name`, if it is there.
    pub fn remove(&mut self, name: &str)
        ensures
            final(self)@ == old(self)@.remove(name@),
    {
        proof {
            use_type_invariant(&*self);
            lemma_fields_view(self.fields@);
        }
        let found = self.position(name);
        let mut fields: Vec<(String, Json)> = Vec::new();
        std::mem::swap(&mut fields, &mut self.fields);
        let ghost before = fields@;
        match found {
            Some(i) => {
                let _ = fields.remove(i);
                proof {
                    assert forall|a: int, b: int|
                        #![trigger fields@[a], fields@[b]]
                        0 <= a < b < fields@.len() implies fields@[a].0@ != fields@[b].0@ by {
                        let x = if a < i { a } else { a + 1 };
                        let y = if b < i { b } else { b + 1 };
                        assert(before[x].0@ != before[y].0@);
                    }
                    lemma_fields_view(fields@);
                    assert(fields_view(fields@) =~= fields_view(before).remove(name@)) by {
                        assert forall|k: Seq<char>|
                            fields_view(fields@).contains_key(k) <==> fields_view(before).remove(
                                name@,
                            ).contains_key(k) by {
                            if fields_view(fields@).contains_key(k) {
                                let j = choose|j: int|
                                    0 <= j < fields@.len() && #[trigger] fields@[j].0@ == k;
                                let x = if j < i { j } else { j + 1 };
                                assert(before[x].0@ == k);
                                assert(before[x].0@ != before[i as int].0@);
                            }
                            if fields_view(before).contains_key(k) && k != name@ {
                                let j = choose|j: int|
                                    0 <= j < before.len() && #[trigger] before[j].0@ == k;
                                let x = if j < i { j } else { j - 1 };
                                assert(fields@[x].0@ == k);
                            }
                        }
                        assert forall|k: Seq<char>| fields_view(fields@).contains_key(k) implies fields_view(
                            fields@,
                        )[k] == fields_view(before).remove(name@)[k] by {
                            let j = choose|j: int|
                                0 <= j < fields@.len() && #[trigger] fields@[j].0@ == k;
                            let x = if j < i { j } else { j + 1 };
                            assert(before[x] == fields@[j]);
                        }
                    }
                }
            },
            None => {
                proof {
                    assert(fields_view(before).remove(name@) =~= fields_view(before));
                }
            },
        }
        self.fields = fields;
    }
}

/// The elements of a list are seen one by one, in order.
pub proof fn law_elements_are_seen_in_order(items: Seq<Json>)
    ensures
        items_view(items).len() == items.len(),
        forall|i: int| 0 <= i < items.len() ==> #[trigger] items_view(items)[i] == items[i]@,
{
}

/// A value is seen as what it holds.
pub proof fn law_values_are_seen_as_they_are(
    flag: bool,
    number: u64,
    text: String,
    items: Vec<Json>,
    object: JsonObject,
)
    ensures
        Json::Null@ == JsonView::Null,
        Json::Bool(flag)@.boolean() == Some(flag),
        Json::Unsigned(number)@.unsigned() == Some(number),
        Json::Str(text)@.text() == Some(text@),
        Json::Array(items)@.items() == Some(items_view(items@)),
        Json::Object(object)@ == JsonView::Object(object@),
{
}

} // verus!
