//! `GET /{app}/file/{version}`: the file stored for a version.

use vstd::prelude::*;

use crate::auth::{access_outcome, verify_access};
use crate::files::{file_path_spec, format_path};
use crate::response::ApiError;

verus! {

/// Decides a file request from the version's row (`None` when the version
/// does not exist, else its optional file id) and the access check: the path
/// of the file to send, or the error. The version is looked at before the
/// access code, as the server does.
pub fn process(
    file_row: Option<Option<String>>,
    provided_access: Option<&str>,
    access_code: Option<&str>,
) -> (r: Result<String, ApiError>)
    ensures
        match file_row {
            None => r == Err::<String, ApiError>(ApiError::VersionNotFound),
            Some(None) => r == Err::<String, ApiError>(ApiError::NoFileForVersion),
            Some(Some(f)) => match access_outcome(
                match provided_access { Some(p) => Some(p@), None => None },
                match access_code { Some(c) => Some(c@), None => None },
            ) {
                Some(e) => r == Err::<String, ApiError>(e),
                None => r matches Ok(path) && path@ == file_path_spec(f@),
            },
        },
{
    let file_id = match file_row {
        None => return Err(ApiError::VersionNotFound),
        Some(None) => return Err(ApiError::NoFileForVersion),
        Some(Some(f)) => f,
    };
    match verify_access(provided_access, access_code) {
        Err(e) => return Err(e),
        Ok(()) => {},
    }
    Ok(format_path(file_id.as_str()))
}

} // verus!
