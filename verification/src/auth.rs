//! Admin passwords and per-application access codes.

use sha2::Digest;
use vstd::prelude::*;
use vstd::utf8::encode_utf8;

use crate::response::{ApiError, ApiResponse, is_json_error, json_err};
use crate::text::{hex_lower, hex_lower_spec, str_eq};

verus! {

/// The SHA-256 digest of a byte sequence.
pub uninterp spec fn sha256_spec(data: Seq<u8>) -> Seq<u8>;

/// SHA-256 of `data` (`sha2::Sha256::digest`). Claimed: the result is the
/// named digest of exactly these bytes, and it is 32 bytes long (the output
/// size of SHA-256).
#[verifier::external_body]
fn sha256(data: &[u8]) -> (r: Vec<u8>)
    ensures
        r@ == sha256_spec(data@),
        r@.len() == 32,
{
    sha2::Sha256::digest(data).to_vec()
}

/// The stored form of a password: the lowercase hex of the SHA-256 digest of
/// its UTF-8 bytes.
pub open spec fn password_hash_spec(password: Seq<char>) -> Seq<char> {
    hex_lower_spec(sha256_spec(encode_utf8(password)))
}

/// The outcome of a password check: `None` when the password is accepted,
/// else the error it is refused with.
pub open spec fn password_outcome(password: Option<Seq<char>>, real_hash: Seq<char>) -> Option<ApiError> {
    match password {
        None => Some(ApiError::NoPassword),
        Some(p) => if password_hash_spec(p) == real_hash {
            None
        } else {
            Some(ApiError::IncorrectPassword)
        },
    }
}

/// Whether a digest, written as lowercase hex, is the stored hash.
pub fn check_password_digest(digest: &[u8], real_hash: &str) -> (r: bool)
    ensures
        r == (hex_lower_spec(digest@) == real_hash@),
{
    let hash = hex_lower(digest);
    str_eq(hash.as_str(), real_hash)
}

/// Checks the admin password sent with a request against the stored hash.
/// Returns `None` when it matches, else the JSON error reply to send:
/// "No password" when none was sent, "Incorrect password" when it differs.
pub fn verify_password(password: Option<&str>, real_hash: &str) -> (r: Option<ApiResponse>)
    ensures
        match password_outcome(
            match password { Some(p) => Some(p@), None => None },
            real_hash@,
        ) {
            None => r is None,
            Some(e) => r matches Some(resp) && is_json_error(resp, e.message_spec()),
        },
{
    let password = match password {
        Some(i) => i,
        None => return Some(json_err(ApiError::NoPassword.message())),
    };
    let digest = sha256(password.as_bytes());
    if !check_password_digest(digest.as_slice(), real_hash) {
        return Some(json_err(ApiError::IncorrectPassword.message()));
    }
    None
}

/// Law: the password whose hash is stored is accepted.
pub proof fn law_stored_password_accepted(password: Seq<char>)
    ensures
        password_outcome(Some(password), password_hash_spec(password)) is None,
{
}

/// Law: a request without a password is refused, whatever is stored.
pub proof fn law_missing_password_refused(real_hash: Seq<char>)
    ensures
        password_outcome(None, real_hash) == Some(ApiError::NoPassword),
{
}

/// The outcome of an access-code check: an application without an access
/// code is open; one with a code asks for exactly that code.
pub open spec fn access_outcome(provided: Option<Seq<char>>, access_code: Option<Seq<char>>) -> Option<ApiError> {
    match access_code {
        None => None,
        Some(code) => match provided {
            None => Some(ApiError::NoAccessCode),
            Some(p) => if p == code { None } else { Some(ApiError::InvalidAccessCode) },
        },
    }
}

/// Law: an application without an access code is open to every request,
/// and one with a code accepts exactly that code.
pub proof fn law_access_code(provided: Option<Seq<char>>, code: Seq<char>)
    ensures
        access_outcome(provided, None) is None,
        access_outcome(Some(code), Some(code)) is None,
        provided != Some(code) ==> access_outcome(provided, Some(code)) is Some,
{
}

/// Checks the access code sent with a request against the application's.
pub fn verify_access(provided: Option<&str>, access_code: Option<&str>) -> (r: Result<(), ApiError>)
    ensures
        match access_outcome(
            match provided { Some(p) => Some(p@), None => None },
            match access_code { Some(c) => Some(c@), None => None },
        ) {
            None => r is Ok,
            Some(e) => r == Err::<(), ApiError>(e),
        },
{
    match access_code {
        None => Ok(()),
        Some(code) => match provided {
            None => Err(ApiError::NoAccessCode),
            Some(p) => if str_eq(p, code) {
                Ok(())
            } else {
                Err(ApiError::InvalidAccessCode)
            },
        },
    }
}

} // verus!
