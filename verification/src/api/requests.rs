//! The admin requests' password check and bodies: the check every admin
//! request passes first, and the JSON bodies of the requests that add an
//! application, add a version or set the latest version.

use vstd::prelude::*;

use crate::auth::{password_outcome, verify_password};
use crate::files::{latest_version_id, uuid_parse};
use crate::response::{ApiResponse, is_json_error};

verus! {

/// The string field `key` of a JSON object text as `serde_json` reads it:
/// `None` when the text is not JSON or has no such field, `Some(None)` when the
/// field is not a string.
pub uninterp spec fn json_field(body: Seq<char>, key: Seq<char>) -> Option<Option<Seq<char>>>;

/// Reads a field of a JSON request body (`serde_json::from_str::<Value>`,
/// then `Value::get` and `Value::as_str`). Claimed: the result is the named
/// reading of the body and key.
#[verifier::external_body]
fn body_field(body: &str, key: &str) -> (r: Option<Option<String>>)
    ensures
        (match r {
            None => None,
            Some(None) => Some(None),
            Some(Some(v)) => Some(Some(v@)),
        }) == json_field(body@, key@),
{
    match serde_json::from_str::<serde_json::Value>(body) {
        Ok(v) => match v.get(key) {
            Some(x) => match x.as_str() {
                Some(s) => Some(Some(s.to_string())),
                None => Some(None),
            },
            None => None,
        },
        Err(_) => None,
    }
}

/// Why a request body cannot be served: it is not a JSON object with the
/// fields the request needs, or a version id in it is not a UUID.
#[derive(Clone, Copy, Debug, PartialEq, Eq, Structural)]
pub enum BodyError {
    Malformed,
}

/// The check every admin request passes first: it lets a request through when
/// the password sent hashes to the stored hash, and otherwise answers it with
/// the JSON error reply.
pub fn check_admin(password: Option<&str>, real_hash: &str) -> (r: Result<(), ApiResponse>)
    ensures
        match password_outcome(
            match password { Some(p) => Some(p@), None => None },
            real_hash@,
        ) {
            None => r is Ok,
            Some(e) => r matches Err(resp) && is_json_error(resp, e.message_spec()),
        },
{
    match verify_password(password, real_hash) {
        None => Ok(()),
        Some(resp) => Err(resp),
    }
}

/// Law: an admin request is let through only with the right password, and
/// always with it.
pub proof fn law_admin_password_check(password: Option<Seq<char>>, real_hash: Seq<char>)
    ensures
        password_outcome(password, real_hash) is None <==> (password matches Some(p)
            && crate::auth::password_hash_spec(p) == real_hash),
{
}

/// Reads a request to set the latest version: the version id in canonical
/// form (none when the `version` field is not a string, which clears the
/// latest version) and the application's name.
pub fn set_latest_request(body: &str) -> (r: Result<(Option<String>, String), BodyError>)
    ensures
        match (json_field(body@, "version"@), json_field(body@, "app"@)) {
            (Some(None), Some(Some(a))) => r matches Ok((None, app)) && app@ == a,
            (Some(Some(v)), Some(Some(a))) => match uuid_parse(v) {
                Some(u) => r matches Ok((Some(id), app)) && id@ == u && app@ == a,
                None => r == Err::<(Option<String>, String), BodyError>(BodyError::Malformed),
            },
            _ => r == Err::<(Option<String>, String), BodyError>(BodyError::Malformed),
        },
{
    let version = match body_field(body, "version") {
        None => return Err(BodyError::Malformed),
        Some(v) => v,
    };
    let id = match version {
        None => None,
        Some(v) => match latest_version_id(Some(v.as_str())) {
            Ok(id) => id,
            Err(_) => return Err(BodyError::Malformed),
        },
    };
    let app = match body_field(body, "app") {
        Some(Some(a)) => a,
        _ => return Err(BodyError::Malformed),
    };
    Ok((id, app))
}

/// Reads a request to add a version: the application's name, the version
/// string and the changelog.
pub fn new_version_request(body: &str) -> (r: Result<(String, String, String), BodyError>)
    ensures
        match (json_field(body@, "app"@), json_field(body@, "version"@), json_field(body@, "changelog"@)) {
            (Some(Some(a)), Some(Some(v)), Some(Some(c))) => r matches Ok((app, version, changelog))
                && app@ == a && version@ == v && changelog@ == c,
            _ => r == Err::<(String, String, String), BodyError>(BodyError::Malformed),
        },
{
    let app = match body_field(body, "app") {
        Some(Some(a)) => a,
        _ => return Err(BodyError::Malformed),
    };
    let version = match body_field(body, "version") {
        Some(Some(v)) => v,
        _ => return Err(BodyError::Malformed),
    };
    let changelog = match body_field(body, "changelog") {
        Some(Some(c)) => c,
        _ => return Err(BodyError::Malformed),
    };
    Ok((app, version, changelog))
}

/// Reads a request to add an application: its name.
pub fn new_app_request(body: &str) -> (r: Result<String, BodyError>)
    ensures
        match json_field(body@, "name"@) {
            Some(Some(n)) => r matches Ok(name) && name@ == n,
            _ => r == Err::<String, BodyError>(BodyError::Malformed),
        },
{
    match body_field(body, "name") {
        Some(Some(n)) => Ok(n),
        _ => Err(BodyError::Malformed),
    }
}

} // verus!
