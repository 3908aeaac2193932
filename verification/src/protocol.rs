//! The tool contract: tool definitions and tool results, independent of the
//! transport that carries them.

use vstd::prelude::*;

use crate::json::{items_view, json_ref_view, no_fields, Json, JsonObject, JsonView};
use crate::text::strings_view;

verus! {

/// A tool as it is listed to clients.
pub struct Tool {
    pub name: String,
    pub description: String,
    pub input_schema: ToolInputSchema,
}

impl Tool {
    /// The tool as clients see it.
    pub open spec fn wire_view(self) -> JsonView {
        JsonView::Object(
            no_fields().insert("name"@, JsonView::Str(self.name@)).insert(
                "description"@,
                JsonView::Str(self.description@),
            ).insert("inputSchema"@, JsonView::Object(self.input_schema@)),
        )
    }

    /// The tool as clients see it.
    pub fn to_json(self) -> (json: Json)
        ensures
            json@ == self.wire_view(),
    {
        let mut object = JsonObject::new();
        object.put("name", Json::Str(self.name));
        object.put("description", Json::Str(self.description));
        object.put("inputSchema", Json::Object(self.input_schema.into_object()));
        Json::Object(object)
    }
}

/// A complete JSON Schema object.
pub struct ToolInputSchema {
    schema: JsonObject,
}

/// The JSON array of the given texts.
pub open spec fn text_array(texts: Seq<Seq<char>>) -> JsonView {
    JsonView::Array(Seq::new(texts.len(), |i: int| JsonView::Str(texts[i])))
}

/// The JSON array of the given strings.
pub fn texts_to_json(texts: &Vec<String>) -> (array: Json)
    ensures
        array@ == text_array(strings_view(texts@)),
{
    let mut items: Vec<Json> = Vec::new();
    let mut i: usize = 0;
    while i < texts.len()
        invariant
            i <= texts@.len(),
            items@.len() == i,
            forall|j: int|
                0 <= j < i ==> (#[trigger] items@[j])@ == JsonView::Str(texts@[j]@),
        decreases texts@.len() - i,
    {
        items.push(Json::text(texts[i].as_str()));
        i = i + 1;
    }
    proof {
        let texts_seq = strings_view(texts@);
        assert(items_view(items@) =~= Seq::new(
            texts_seq.len(),
            |i: int| JsonView::Str(texts_seq[i]),
        ));
    }
    Json::Array(items)
}

/// The schema of an object with the given properties.
pub open spec fn object_schema(
    properties: JsonView,
    required: Option<Seq<Seq<char>>>,
) -> Map<Seq<char>, JsonView> {
    let schema = no_fields().insert("type"@, JsonView::Str("object"@)).insert(
        "properties"@,
        properties,
    );
    match required {
        Some(names) => schema.insert("required"@, text_array(names)),
        None => schema,
    }
}

impl ToolInputSchema {
    /// The keywords of the schema.
    pub closed spec fn view(self) -> Map<Seq<char>, JsonView> {
        self.schema@
    }

    /// Wraps a complete JSON Schema object, with every keyword that it has.
    pub fn from_object(schema: JsonObject) -> (wrapped: Self)
        ensures
            wrapped@ == schema@,
    {
        ToolInputSchema { schema }
    }

    /// The schema of an object with the given properties, of which some may be required.
    pub fn object(properties: Json, required: Option<Vec<String>>) -> (schema: Self)
        ensures
            schema@ == object_schema(
                properties@,
                match required {
                    Some(names) => Some(strings_view(names@)),
                    None => None,
                },
            ),
    {
        let mut schema = JsonObject::new();
        schema.put("type", Json::text("object"));
        schema.put("properties", properties);
        match required {
            Some(names) => {
                schema.put("required", texts_to_json(&names));
            },
            None => {},
        }
        Self::from_object(schema)
    }

    /// Borrows the complete JSON Schema object.
    pub fn as_object(&self) -> (schema: &JsonObject)
        ensures
            schema@ == self@,
    {
        &self.schema
    }

    /// The complete JSON Schema object.
    pub fn into_object(self) -> (schema: JsonObject)
        ensures
            schema@ == self@,
    {
        self.schema
    }

    /// Reads a root-level JSON Schema keyword.
    pub fn get(&self, keyword: &str) -> (value: Option<&Json>)
        ensures
            json_ref_view(value) == JsonView::Object(self@).field(keyword@),
    {
        self.schema.get(keyword)
    }
}

/// The answer to a request for the tool catalog.
pub struct ListToolsResult {
    pub tools: Vec<Tool>,
}

/// What a tool returned.
pub struct CallToolResult {
    pub content: Vec<ContentBlock>,
    pub is_error: Option<bool>,
}

/// A piece of tool output.
pub enum ContentBlock {
    Text { text: String },
}

impl ContentBlock {
    /// The characters of the block.
    pub open spec fn view(self) -> Seq<char> {
        match self {
            ContentBlock::Text { text } => text@,
        }
    }

    /// A block of text.
    pub fn text(content: String) -> (block: Self)
        ensures
            block@ == content@,
    {
        ContentBlock::Text { text: content }
    }
}

impl CallToolResult {
    /// Whether the tool reported an error; it did not where it says nothing.
    pub open spec fn failed(self) -> bool {
        match self.is_error {
            Some(e) => e,
            None => false,
        }
    }

    /// The text of a successful result that consists of one block.
    pub open spec fn sole_text(self) -> Option<Seq<char>> {
        if self.failed() || self.content@.len() != 1 {
            None
        } else {
            Some(self.content@[0]@)
        }
    }

    /// A successful or failed result of one block of text.
    pub fn of_text(text: String, is_error: bool) -> (result: Self)
        ensures
            result.is_error == Some(is_error),
            result.content@.len() == 1,
            result.content@[0]@ == text@,
    {
        let mut content: Vec<ContentBlock> = Vec::new();
        content.push(ContentBlock::text(text));
        CallToolResult { content, is_error: Some(is_error) }
    }

    /// The text of a successful result that consists of one block.
    pub fn as_sole_text(&self) -> (text: Option<&str>)
        ensures
            crate::text::str_view(text) == self.sole_text(),
    {
        let failed = match self.is_error {
            Some(e) => e,
            None => false,
        };
        if failed || self.content.len() != 1 {
            return None;
        }
        match &self.content[0] {
            ContentBlock::Text { text } => Some(text.as_str()),
        }
    }
}

/// A tool is listed with its name, its description and its whole schema.
pub proof fn law_tools_are_listed_as_they_are(tool: Tool)
    ensures
        tool.wire_view().text_field("name"@) == Some(tool.name@),
        tool.wire_view().text_field("description"@) == Some(tool.description@),
        tool.wire_view().field("inputSchema"@) == Some(JsonView::Object(tool.input_schema@)),
{
    reveal_strlit("name");
    reveal_strlit("description");
    reveal_strlit("inputSchema");
    assert("name"@.len() != "description"@.len());
    assert("name"@.len() != "inputSchema"@.len());
    assert("description"@[0] != "inputSchema"@[0]);
}

/// The schema of an object holds the properties, and the names of those that are required,
/// in order.
pub proof fn law_object_schema_holds_the_properties(
    properties: JsonView,
    required: Option<Seq<Seq<char>>>,
)
    ensures
        ({
            let schema = JsonView::Object(object_schema(properties, required));
            &&& schema.text_field("type"@) == Some("object"@)
            &&& schema.field("properties"@) == Some(properties)
            &&& schema.field("required"@) is Some == required is Some
            &&& required matches Some(names) ==> (schema.field("required"@) matches Some(
                JsonView::Array(listed),
            ) && listed.len() == names.len() && forall|i: int|
                0 <= i < names.len() ==> #[trigger] listed[i] == JsonView::Str(names[i]))
        }),
{
    reveal_strlit("type");
    reveal_strlit("properties");
    reveal_strlit("required");
    assert("type"@.len() != "properties"@.len());
    assert("type"@.len() != "required"@.len());
    assert("properties"@.len() != "required"@.len());
}

/// A result has a text of its own exactly where it did not fail and has one block.
pub proof fn law_only_successful_results_are_read(result: CallToolResult)
    ensures
        result.sole_text() is Some <==> result.is_error != Some(true) && result.content@.len() == 1,
        result.sole_text() matches Some(text) ==> text == result.content@[0]@,
{
}

} // verus!
