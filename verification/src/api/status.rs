//! `GET /{app}/status`: the latest version of an application and its date.

use vstd::prelude::*;
use vstd::string::*;

use crate::api::opt_view;
use crate::auth::{access_outcome, verify_access};
use crate::json::{json_string_text, push_json_string};
use crate::response::{ApiError, ApiResponse, ContentKind, ResponseType, is_error_reply, text_err_handle};
use crate::text::{decimal_spec, push_decimal};

verus! {

/// Resolves the row found for the application: the id of its latest version
/// and its access code. Refused with "App not found" when there is no such
/// application and "No app versions found" when it has no latest version.
pub fn latest_of_app(row: Option<(Option<String>, Option<String>)>) -> (r: Result<(String, Option<String>), ApiError>)
    ensures
        match row {
            None => r == Err::<(String, Option<String>), ApiError>(ApiError::AppNotFound),
            Some((None, _)) => r == Err::<(String, Option<String>), ApiError>(ApiError::NoAppVersions),
            Some((Some(l), a)) => r == Ok::<(String, Option<String>), ApiError>((l, a)),
        },
{
    match row {
        None => Err(ApiError::AppNotFound),
        Some((None, _)) => Err(ApiError::NoAppVersions),
        Some((Some(l), a)) => Ok((l, a)),
    }
}

/// Decides a status request from the application's row and the access code
/// sent: the id of the latest version to look up, or the error.
pub fn process(row: Option<(Option<String>, Option<String>)>, provided_access: Option<&str>) -> (r: Result<String, ApiError>)
    ensures
        match row {
            None => r == Err::<String, ApiError>(ApiError::AppNotFound),
            Some((None, _)) => r == Err::<String, ApiError>(ApiError::NoAppVersions),
            Some((Some(l), code)) => match access_outcome(
                match provided_access { Some(p) => Some(p@), None => None },
                opt_view(code),
            ) {
                Some(e) => r == Err::<String, ApiError>(e),
                None => r == Ok::<String, ApiError>(l),
            },
        },
{
    let (latest, code) = match latest_of_app(row) {
        Ok(v) => v,
        Err(e) => return Err(e),
    };
    let checked = match &code {
        Some(c) => verify_access(provided_access, Some(c.as_str())),
        None => verify_access(provided_access, None),
    };
    match checked {
        Ok(()) => Ok(latest),
        Err(e) => Err(e),
    }
}

/// The text reply: `<version>,<date>`.
pub open spec fn status_text_spec(version: Seq<char>, date: u64) -> Seq<char> {
    version + ","@ + decimal_spec(date as nat)
}

/// The JSON reply: `{"date":<date>,"version":<version>}`.
pub open spec fn status_json_spec(version: Seq<char>, date: u64) -> Seq<char> {
    "{\"date\":"@ + decimal_spec(date as nat) + ",\"version\":"@ + json_string_text(version) + "}"@
}

/// Builds the reply to a status request from its outcome: the latest version
/// and its date, or the error it was refused with.
pub fn respond(res_type: ResponseType, result: Result<(String, u64), ApiError>) -> (r: ApiResponse)
    ensures
        match result {
            Ok((v, d)) => r.status == 200 && match res_type {
                ResponseType::Text => r.content == Some(ContentKind::Text) && r.body@ == status_text_spec(v@, d),
                ResponseType::Json => r.content == Some(ContentKind::Json) && r.body@ == status_json_spec(v@, d),
            },
            Err(e) => is_error_reply(r, e.message_spec(), res_type),
        },
{
    match result {
        Ok((v, d)) => match res_type {
            ResponseType::Text => {
                let mut body = String::new();
                body.append(v.as_str());
                body.append(",");
                push_decimal(&mut body, d);
                assert(body@ =~= status_text_spec(v@, d));
                ApiResponse { status: 200, content: Some(ContentKind::Text), body }
            },
            ResponseType::Json => {
                let mut body = String::new();
                body.append("{\"date\":");
                push_decimal(&mut body, d);
                body.append(",\"version\":");
                push_json_string(&mut body, v.as_str());
                body.append("}");
                assert(body@ =~= status_json_spec(v@, d));
                ApiResponse { status: 200, content: Some(ContentKind::Json), body }
            },
        },
        Err(e) => text_err_handle(e.message(), res_type),
    }
}

} // verus!
