//! The requests the server answers. Each handler is split into the decisions
//! it takes on what the database returned and the reply it builds; the server
//! runs the queries between them.

use vstd::prelude::*;

use crate::auth::{access_outcome, verify_access};
use crate::response::ApiError;

pub mod admin;
pub mod file;
pub mod requests;
pub mod status;
pub mod version;
pub mod versions;

verus! {

/// Resolves the row found for an application name: its id and its second
/// column (access code or latest version), or "App not found".
pub fn resolve_app(row: Option<(String, Option<String>)>) -> (r: Result<(String, Option<String>), ApiError>)
    ensures
        match row {
            None => r == Err::<(String, Option<String>), ApiError>(ApiError::AppNotFound),
            Some(v) => r == Ok::<(String, Option<String>), ApiError>(v),
        },
{
    match row {
        Some(v) => Ok(v),
        None => Err(ApiError::AppNotFound),
    }
}

/// An application's row (id and access code) by its plain values.
pub type AppRowView = Option<(Seq<char>, Option<Seq<char>>)>;

/// The application row by its plain values.
pub open spec fn app_row_view(row: Option<(String, Option<String>)>) -> AppRowView {
    match row {
        Some((id, code)) => Some((id@, opt_view(code))),
        None => None,
    }
}

/// Whether a public request may see an application: its id, or "App not
/// found", or the access error.
pub open spec fn authorize_spec(row: AppRowView, provided: Option<Seq<char>>) -> Result<Seq<char>, ApiError> {
    match row {
        None => Err(ApiError::AppNotFound),
        Some((id, code)) => match access_outcome(provided, code) {
            Some(e) => Err(e),
            None => Ok(id),
        },
    }
}

/// A string argument by its plain value.
pub open spec fn str_opt_view(s: Option<&str>) -> Option<Seq<char>> {
    match s {
        Some(v) => Some(v@),
        None => None,
    }
}

/// Resolves the application a public request names and checks the access
/// code sent with it: the application's id, or "App not found", or the access
/// error.
pub fn authorize_app(row: Option<(String, Option<String>)>, provided_access: Option<&str>) -> (r: Result<String, ApiError>)
    ensures
        match row {
            None => r == Err::<String, ApiError>(ApiError::AppNotFound),
            Some((id, code)) => match access_outcome(
                match provided_access { Some(p) => Some(p@), None => None },
                opt_view(code),
            ) {
                Some(e) => r == Err::<String, ApiError>(e),
                None => r == Ok::<String, ApiError>(id),
            },
        },
        match r {
            Ok(id) => authorize_spec(app_row_view(row), str_opt_view(provided_access)) == Ok::<Seq<char>, ApiError>(id@),
            Err(e) => authorize_spec(app_row_view(row), str_opt_view(provided_access)) == Err::<Seq<char>, ApiError>(e),
        },
{
    let (id, code) = match resolve_app(row) {
        Ok(v) => v,
        Err(e) => return Err(e),
    };
    let checked = match &code {
        Some(c) => verify_access(provided_access, Some(c.as_str())),
        None => verify_access(provided_access, None),
    };
    match checked {
        Ok(()) => Ok(id),
        Err(e) => Err(e),
    }
}

/// An optional string by its plain value.
pub open spec fn opt_view(s: Option<String>) -> Option<Seq<char>> {
    match s {
        Some(v) => Some(v@),
        None => None,
    }
}

} // verus!
