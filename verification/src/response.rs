//! Answers to requests, as plain values.

use vstd::prelude::*;
use vstd::string::*;
use crate::images::text_view;

verus! {

/// The status of an answer, by its number.
#[derive(Debug, Clone, Copy, PartialEq, Eq, Structural)]
pub struct Status {
    pub code: u16,
}

impl Status {
    /// The status of success.
    pub open spec fn spec_ok() -> Status {
        Status { code: 200 }
    }

    /// The status of a request that is refused.
    pub open spec fn spec_bad_request() -> Status {
        Status { code: 400 }
    }

    /// The status of a failure on the server's side.
    pub open spec fn spec_internal_server_error() -> Status {
        Status { code: 500 }
    }

    /// The status of success.
    #[verifier::when_used_as_spec(spec_ok)]
    pub fn ok() -> (status: Status)
        ensures
            status == Status::spec_ok(),
    {
        Status { code: 200 }
    }

    /// The status of a request that is refused.
    #[verifier::when_used_as_spec(spec_bad_request)]
    pub fn bad_request() -> (status: Status)
        ensures
            status == Status::spec_bad_request(),
    {
        Status { code: 400 }
    }

    /// The status of a failure on the server's side.
    #[verifier::when_used_as_spec(spec_internal_server_error)]
    pub fn internal_server_error() -> (status: Status)
        ensures
            status == Status::spec_internal_server_error(),
    {
        Status { code: 500 }
    }
}

/// The members of the object that an answer carries: a message, and a token
/// where a login succeeded.
#[derive(Debug)]
pub struct JsonValue {
    pub message: String,
    pub token: Option<String>,
}

/// An answer: an object and a status.
#[derive(Debug)]
pub struct ApiResponse {
    pub json: JsonValue,
    pub status: Status,
}

/// What an [`ApiResponse`] holds, as mathematical values.
pub struct ApiResponseView {
    pub message: Seq<char>,
    pub token: Option<Seq<char>>,
    pub status: Status,
}

impl View for ApiResponse {
    type V = ApiResponseView;

    open spec fn view(&self) -> ApiResponseView {
        ApiResponseView {
            message: self.json.message@,
            token: text_view(self.json.token),
            status: self.status,
        }
    }
}

/// An answer as it goes over the wire.
#[derive(Debug)]
pub struct Response {
    pub status: u16,
    pub content_type: String,
    pub body: String,
}

/// The text of the JSON object with the member `message` and, where there
/// is a token, the member `token` behind it, as `serde_json` writes it.
pub uninterp spec fn json_object_text(message: Seq<char>, token: Option<Seq<char>>) -> Seq<char>;

/// Builds a `serde_json::Map` with the member `message` and, where there is
/// a token, the member `token`, and calls `serde_json::to_string` on it: the
/// text is a function of the two values alone.
#[verifier::external_body]
pub(crate) fn json_object(message: &str, token: &Option<String>) -> (text: String)
    ensures
        text@ == json_object_text(message@, text_view(*token)),
{
    let mut object = serde_json::Map::new();
    object.insert("message".to_string(), serde_json::Value::from(message));
    if let Some(token) = token {
        object.insert("token".to_string(), serde_json::Value::from(token.as_str()));
    }
    serde_json::Value::Object(object).to_string()
}

impl ApiResponse {
    /// An answer with a message and no token.
    pub fn message(message: &str, status: Status) -> (response: ApiResponse)
        ensures
            response@ == (ApiResponseView { message: message@, token: None, status }),
    {
        ApiResponse { json: JsonValue { message: message.to_owned(), token: None }, status }
    }

    /// The answer as it goes over the wire: the status, the content type of
    /// JSON, and the object as text.
    pub fn respond_to(&self) -> (response: Response)
        ensures
            response.status == self.status.code,
            response.content_type@ == "application/json"@,
            response.body@ == json_object_text(self.json.message@, text_view(self.json.token)),
    {
        Response {
            status: self.status.code,
            content_type: "application/json".to_owned(),
            body: json_object(self.json.message.as_str(), &self.json.token),
        }
    }
}

} // verus!
