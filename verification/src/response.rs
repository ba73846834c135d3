//! What a request is answered: the reply format a client asks for, the errors
//! the server reports, and the replies themselves as plain values.

use vstd::prelude::*;
use vstd::string::*;

use crate::json::{json_string_text, json_string_value, law_json_string_roundtrip, push_json_string};
use crate::text::str_eq;

verus! {

/// The format of a reply: JSON unless the client asks for plain text.
#[derive(Clone, Copy, Debug, PartialEq, Eq, Structural)]
pub enum ResponseType {
    Json,
    Text,
}

impl ResponseType {
    /// Picks the reply format from the request's `Accept` header: plain text
    /// exactly when it is `text/plain`, JSON otherwise.
    pub fn from_headers(accept: Option<&str>) -> (r: ResponseType)
        ensures
            r == ResponseType::Text <==> (accept is Some && accept->0@ == "text/plain"@),
    {
        match accept {
            Some(i) => {
                if str_eq(i, "text/plain") {
                    ResponseType::Text
                } else {
                    ResponseType::Json
                }
            },
            None => ResponseType::Json,
        }
    }
}

/// The content type of a reply.
#[derive(Clone, Copy, Debug, PartialEq, Eq, Structural)]
pub enum ContentKind {
    Json,
    Text,
}

/// A reply: status code, content type (when one is set) and body.
#[derive(Debug)]
pub struct ApiResponse {
    pub status: u16,
    pub content: Option<ContentKind>,
    pub body: String,
}

/// The errors a request can be answered with.
#[derive(Clone, Copy, Debug, PartialEq, Eq, Structural)]
pub enum ApiError {
    AppNotFound,
    VersionNotFound,
    NoFileForVersion,
    NoAppVersions,
    NoPassword,
    IncorrectPassword,
    NoVersionId,
    InvalidUuid,
    InvalidVersion,
    NoAccessCode,
    InvalidAccessCode,
}

impl ApiError {
    /// The text of the error, as the client reads it.
    pub open spec fn message_spec(self) -> Seq<char> {
        match self {
            ApiError::AppNotFound => "App not found"@,
            ApiError::VersionNotFound => "Version not found"@,
            ApiError::NoFileForVersion => "No file for version"@,
            ApiError::NoAppVersions => "No app versions found"@,
            ApiError::NoPassword => "No password"@,
            ApiError::IncorrectPassword => "Incorrect password"@,
            ApiError::NoVersionId => "No version ID"@,
            ApiError::InvalidUuid => "Invalid UUID"@,
            ApiError::InvalidVersion => "Invalid version"@,
            ApiError::NoAccessCode => "No access code"@,
            ApiError::InvalidAccessCode => "Invalid access code"@,
        }
    }

    /// The text of the error.
    pub fn message(&self) -> (r: &'static str)
        ensures
            r@ == self.message_spec(),
    {
        match self {
            ApiError::AppNotFound => "App not found",
            ApiError::VersionNotFound => "Version not found",
            ApiError::NoFileForVersion => "No file for version",
            ApiError::NoAppVersions => "No app versions found",
            ApiError::NoPassword => "No password",
            ApiError::IncorrectPassword => "Incorrect password",
            ApiError::NoVersionId => "No version ID",
            ApiError::InvalidUuid => "Invalid UUID",
            ApiError::InvalidVersion => "Invalid version",
            ApiError::NoAccessCode => "No access code",
            ApiError::InvalidAccessCode => "Invalid access code",
        }
    }
}

/// The body of a JSON error reply: `{"error":<message>}`.
pub open spec fn json_error_body(msg: Seq<char>) -> Seq<char> {
    "{\"error\":"@ + json_string_text(msg) + "}"@
}

/// Law: the body of a JSON error reply is the object `{"error":..}` whose one
/// value is a JSON string literal that reads back as exactly the message.
pub proof fn law_error_reply_carries_message(msg: Seq<char>)
    ensures
        exists|lit: Seq<char>|
            json_error_body(msg) == "{\"error\":"@ + lit + "}"@ && #[trigger] json_string_value(lit) == Some(msg),
{
    law_json_string_roundtrip(msg);
    assert(json_string_value(json_string_text(msg)) == Some(msg));
}

/// Whether a reply is the JSON error reply for `msg`.
pub open spec fn is_json_error(r: ApiResponse, msg: Seq<char>) -> bool {
    &&& r.status == 404
    &&& r.content == Some(ContentKind::Json)
    &&& r.body@ == json_error_body(msg)
}

/// Whether a reply is the error reply for `msg` in the given format.
pub open spec fn is_error_reply(r: ApiResponse, msg: Seq<char>, res_type: ResponseType) -> bool {
    match res_type {
        ResponseType::Json => is_json_error(r, msg),
        ResponseType::Text => r.status == 404 && r.content == Some(ContentKind::Text) && r.body@ == msg,
    }
}

/// The JSON error reply: status 404, body `{"error":<err>}`.
pub fn json_err(err: &str) -> (r: ApiResponse)
    ensures
        is_json_error(r, err@),
{
    let mut body = String::new();
    body.append("{\"error\":");
    push_json_string(&mut body, err);
    body.append("}");
    assert(body@ =~= json_error_body(err@));
    ApiResponse { status: 404, content: Some(ContentKind::Json), body }
}

/// The error reply in the format the client asked for: the bare message for
/// plain text, the JSON error reply otherwise; status 404 either way.
pub fn text_err_handle(err: &str, res_type: ResponseType) -> (r: ApiResponse)
    ensures
        is_error_reply(r, err@, res_type),
{
    match res_type {
        ResponseType::Text => ApiResponse {
            status: 404,
            content: Some(ContentKind::Text),
            body: String::from_str(err),
        },
        ResponseType::Json => json_err(err),
    }
}

/// The reply to a request that failed inside the server: status 500, no
/// content type, the bare message for plain text, else `{"error":<err>}`.
pub fn server_error(err: &str, res_type: ResponseType) -> (r: ApiResponse)
    ensures
        r.status == 500,
        r.content is None,
        match res_type {
            ResponseType::Text => r.body@ == err@,
            ResponseType::Json => r.body@ == json_error_body(err@),
        },
{
    match res_type {
        ResponseType::Text => ApiResponse { status: 500, content: None, body: String::from_str(err) },
        ResponseType::Json => {
            let mut body = String::new();
            body.append("{\"error\":");
            push_json_string(&mut body, err);
            body.append("}");
            assert(body@ =~= json_error_body(err@));
            ApiResponse { status: 500, content: None, body }
        },
    }
}

/// The body of the reply to a successful admin change.
pub open spec fn ok_body() -> Seq<char> {
    "{\"status\":\"ok\"}"@
}

/// The reply to a successful admin change: status 200, `{"status":"ok"}`.
pub fn ok_response() -> (r: ApiResponse)
    ensures
        r.status == 200,
        r.content == Some(ContentKind::Json),
        r.body@ == ok_body(),
{
    ApiResponse { status: 200, content: Some(ContentKind::Json), body: String::from_str("{\"status\":\"ok\"}") }
}

} // verus!
