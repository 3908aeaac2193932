//! Protocol errors with which a tool call is refused.

use vstd::prelude::*;

use crate::json::{json_view, no_fields, Json, JsonObject, JsonView};

verus! {

/// The class of a protocol error.
#[derive(Clone, Copy, Debug, PartialEq, Eq, Structural)]
pub enum ErrorCode {
    InvalidParams,
    InternalError,
}

/// A protocol error.
pub struct AdapterError {
    pub code: ErrorCode,
    pub message: String,
    pub data: Option<Json>,
}

/// What a protocol error says.
#[verifier::ext_equal]
pub struct AdapterErrorView {
    pub code: ErrorCode,
    pub message: Seq<char>,
    pub data: Option<JsonView>,
}

/// An error about the parameters of a request.
pub open spec fn refused(message: Seq<char>) -> AdapterErrorView {
    AdapterErrorView { code: ErrorCode::InvalidParams, message, data: None }
}

/// An error within the server.
pub open spec fn broken(message: Seq<char>, data: Option<JsonView>) -> AdapterErrorView {
    AdapterErrorView { code: ErrorCode::InternalError, message, data }
}

/// An error within the server, with its cause.
pub open spec fn failure(message: Seq<char>, detail: Seq<char>) -> AdapterErrorView {
    broken(
        message,
        Some(JsonView::Object(no_fields().insert("detail"@, JsonView::Str(detail)))),
    )
}

impl AdapterError {
    /// What the error says.
    pub open spec fn view(self) -> AdapterErrorView {
        AdapterErrorView { code: self.code, message: self.message@, data: json_view(self.data) }
    }

    /// An error about the parameters of a request.
    pub fn invalid_params(message: &str) -> (error: Self)
        ensures
            error@ == refused(message@),
    {
        AdapterError { code: ErrorCode::InvalidParams, message: message.to_owned(), data: None }
    }

    /// An error within the server.
    pub fn internal_error(message: &str, data: Option<Json>) -> (error: Self)
        ensures
            error@ == broken(message@, json_view(data)),
    {
        AdapterError { code: ErrorCode::InternalError, message: message.to_owned(), data }
    }

    /// An error within the server, with its cause.
    pub fn with_detail(message: &str, detail: String) -> (error: Self)
        ensures
            error@ == failure(message@, detail@),
    {
        let mut data = JsonObject::new();
        data.put("detail", Json::Str(detail));
        AdapterError::internal_error(message, Some(Json::Object(data)))
    }
}

/// The cause of a failure is told with it, and a refusal is no failure of the server.
pub proof fn law_causes_are_told(message: Seq<char>, detail: Seq<char>)
    ensures
        failure(message, detail).code is InternalError,
        failure(message, detail).message == message,
        failure(message, detail).data matches Some(data) && data.text_field("detail"@) == Some(
            detail,
        ),
        refused(message).code is InvalidParams,
        refused(message).message == message,
        refused(message).data is None,
{
}

} // verus!
