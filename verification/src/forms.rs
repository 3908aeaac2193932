//! Forms that the server asks a client to fill in, built with `rmcp`'s schema types.

use vstd::prelude::*;

use crate::text::strings_view;

verus! {

/// `rmcp::model::ElicitationSchema`.
#[verifier::external_type_specification]
#[verifier::external_body]
pub struct ExElicitationSchema(rmcp::model::ElicitationSchema);

/// What a form field asks for.
pub enum FieldView {
    Confirm { title: Seq<char>, description: Seq<char>, default: bool },
    Line { title: Seq<char>, description: Seq<char>, min_length: u32, max_length: u32 },
    Choice { values: Seq<Seq<char>>, titles: Seq<Seq<char>> },
}

/// The properties of an elicitation schema, all of them required, by name.
pub uninterp spec fn schema_fields(schema: rmcp::model::ElicitationSchema) -> Map<
    Seq<char>,
    FieldView,
>;

/// The description of an elicitation schema.
pub uninterp spec fn schema_description(schema: rmcp::model::ElicitationSchema) -> Option<
    Seq<char>,
>;

/// One field and nothing else.
pub open spec fn sole_field(name: Seq<char>, field: FieldView) -> Map<Seq<char>, FieldView> {
    Map::empty().insert(name, field)
}

/// Whether a schema asks for one field and nothing else.
pub open spec fn asks_for(
    schema: rmcp::model::ElicitationSchema,
    about: Seq<char>,
    name: Seq<char>,
    field: FieldView,
) -> bool {
    schema_description(schema) == Some(about) && schema_fields(schema) == sole_field(name, field)
}

/// `rmcp::model::ElicitationSchemaBuilder::required_property` with a
/// `BooleanSchema`, then `build`, which fails only where a required field is not
/// among the properties.
#[verifier::external_body]
pub(crate) fn confirm_schema(
    about: &str,
    name: &str,
    title: &str,
    description: &str,
    default: bool,
) -> (schema: Result<rmcp::model::ElicitationSchema, String>)
    ensures
        schema is Ok,
        schema_description(schema->Ok_0) == Some(about@),
        schema_fields(schema->Ok_0) == sole_field(
            name@,
            (FieldView::Confirm { title: title@, description: description@, default }),
        ),
{
    let field = rmcp::model::BooleanSchema::new()
        .title(title.to_string())
        .description(description.to_string())
        .with_default(default);
    rmcp::model::ElicitationSchema::builder()
        .required_property(name, rmcp::model::PrimitiveSchemaDefinition::Boolean(field))
        .description(about.to_string())
        .build()
        .map_err(|error| error.to_string())
}

/// `rmcp::model::ElicitationSchemaBuilder::required_property` with a
/// `StringSchema` of bounded length, then `build`. `StringSchema::length` panics
/// where the bounds are crossed.
#[verifier::external_body]
pub(crate) fn line_schema(
    about: &str,
    name: &str,
    title: &str,
    description: &str,
    min_length: u32,
    max_length: u32,
) -> (schema: Result<rmcp::model::ElicitationSchema, String>)
    requires
        min_length <= max_length,
    ensures
        schema is Ok,
        schema_description(schema->Ok_0) == Some(about@),
        schema_fields(schema->Ok_0) == sole_field(
            name@,
            (FieldView::Line { title: title@, description: description@, min_length, max_length }),
        ),
{
    let field = rmcp::model::StringSchema::new()
        .title(title.to_string())
        .description(description.to_string())
        .length(min_length, max_length);
    rmcp::model::ElicitationSchema::builder()
        .required_property(name, rmcp::model::PrimitiveSchemaDefinition::String(field))
        .description(about.to_string())
        .build()
        .map_err(|error| error.to_string())
}

/// `rmcp::model::EnumSchemaBuilder::enum_titles`, which fails where there are not
/// as many titles as values, and `required_enum_schema` with what it builds, then
/// `build`.
#[verifier::external_body]
pub(crate) fn choice_schema(
    about: &str,
    name: &str,
    values: Vec<String>,
    titles: Vec<String>,
) -> (schema: Result<rmcp::model::ElicitationSchema, String>)
    ensures
        schema is Ok == (values@.len() == titles@.len()),
        schema is Ok ==> schema_description(schema->Ok_0) == Some(about@),
        schema is Ok ==> schema_fields(schema->Ok_0) == sole_field(
            name@,
            (FieldView::Choice { values: strings_view(values@), titles: strings_view(titles@) }),
        ),
{
    let field = rmcp::model::EnumSchema::builder(values).enum_titles(titles)?.build();
    rmcp::model::ElicitationSchema::builder()
        .required_enum_schema(name, field)
        .description(about.to_string())
        .build()
        .map_err(|error| error.to_string())
}

/// A form, with what it is for.
pub struct FormRequest {
    pub message: String,
    pub schema: rmcp::model::ElicitationSchema,
}

impl FormRequest {
    /// Whether the form asks for one field.
    pub open spec fn asks(
        self,
        message: Seq<char>,
        about: Seq<char>,
        name: Seq<char>,
        field: FieldView,
    ) -> bool {
        self.message@ == message && asks_for(self.schema, about, name, field)
    }
}

} // verus!
