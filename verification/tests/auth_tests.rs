use app_versions::auth::{check_password_digest, verify_access, verify_password};
use app_versions::response::{ApiError, ContentKind};

const PASSWORD_HASH: &str = "5e884898da28047151d0e56f8dc6292773603d0d6aabbdd62a11ef721d1542d8";

#[test]
fn correct_password_is_accepted() {
    assert!(verify_password(Some("password"), PASSWORD_HASH).is_none());
}

#[test]
fn wrong_password_is_refused() {
    let r = verify_password(Some("Password"), PASSWORD_HASH).unwrap();
    assert_eq!(r.status, 404);
    assert_eq!(r.content, Some(ContentKind::Json));
    assert_eq!(r.body, "{\"error\":\"Incorrect password\"}");
}

#[test]
fn missing_password_is_refused() {
    let r = verify_password(None, PASSWORD_HASH).unwrap();
    assert_eq!(r.status, 404);
    assert_eq!(r.body, "{\"error\":\"No password\"}");
}

#[test]
fn uppercase_hash_does_not_match() {
    let upper = PASSWORD_HASH.to_uppercase();
    assert!(verify_password(Some("password"), &upper).is_some());
}

#[test]
fn empty_password_hash() {
    let empty = "e3b0c44298fc1c149afbf4c8996fb92427ae41e4649b934ca495991b7852b855";
    assert!(verify_password(Some(""), empty).is_none());
}

#[test]
fn digest_check_compares_hex() {
    assert!(check_password_digest(&[0x01, 0xab], "01ab"));
    assert!(!check_password_digest(&[0x01, 0xab], "01AB"));
    assert!(!check_password_digest(&[0x01, 0xab], "01ab00"));
}

#[test]
fn access_codes() {
    assert_eq!(verify_access(None, None), Ok(()));
    assert_eq!(verify_access(Some("x"), None), Ok(()));
    assert_eq!(verify_access(None, Some("code")), Err(ApiError::NoAccessCode));
    assert_eq!(verify_access(Some("nope"), Some("code")), Err(ApiError::InvalidAccessCode));
    assert_eq!(verify_access(Some("code"), Some("code")), Ok(()));
}
