use app_versions::api::requests::{
    check_admin, new_app_request, new_version_request, set_latest_request, BodyError,
};

const PASSWORD_HASH: &str = "5e884898da28047151d0e56f8dc6292773603d0d6aabbdd62a11ef721d1542d8";

#[test]
fn admin_gate() {
    assert!(check_admin(Some("password"), PASSWORD_HASH).is_ok());
    let r = check_admin(Some("nope"), PASSWORD_HASH).unwrap_err();
    assert_eq!(r.status, 404);
    assert_eq!(r.body, "{\"error\":\"Incorrect password\"}");
    let r = check_admin(None, PASSWORD_HASH).unwrap_err();
    assert_eq!(r.body, "{\"error\":\"No password\"}");
}

#[test]
fn set_latest_bodies() {
    let (v, a) = set_latest_request(
        "{\"version\":\"67E55044-10B1-426F-9247-BB680E5FE0C8\",\"app\":\"demo\"}",
    )
    .unwrap();
    assert_eq!(v, Some("67e55044-10b1-426f-9247-bb680e5fe0c8".to_string()));
    assert_eq!(a, "demo");
    let (v, a) = set_latest_request("{\"version\":null,\"app\":\"demo\"}").unwrap();
    assert_eq!(v, None);
    assert_eq!(a, "demo");
    let (v, _) = set_latest_request("{\"version\":5,\"app\":\"demo\"}").unwrap();
    assert_eq!(v, None);
    assert_eq!(set_latest_request("{\"version\":\"bad\",\"app\":\"demo\"}"), Err(BodyError::Malformed));
    assert_eq!(set_latest_request("{\"app\":\"demo\"}"), Err(BodyError::Malformed));
    assert_eq!(set_latest_request("{\"version\":null}"), Err(BodyError::Malformed));
    assert_eq!(set_latest_request("{\"version\":null,\"app\":1}"), Err(BodyError::Malformed));
    assert_eq!(set_latest_request("not json"), Err(BodyError::Malformed));
}

#[test]
fn new_version_bodies() {
    let r = new_version_request("{\"app\":\"demo\",\"version\":\"1.2.3\",\"changelog\":\"fix\\nmore\"}").unwrap();
    assert_eq!(r, ("demo".to_string(), "1.2.3".to_string(), "fix\nmore".to_string()));
    assert_eq!(new_version_request("{\"app\":\"demo\",\"version\":\"1.2.3\"}"), Err(BodyError::Malformed));
    assert_eq!(
        new_version_request("{\"app\":\"demo\",\"version\":1,\"changelog\":\"x\"}"),
        Err(BodyError::Malformed)
    );
    assert_eq!(new_version_request("[]"), Err(BodyError::Malformed));
}

#[test]
fn new_app_bodies() {
    assert_eq!(new_app_request("{\"name\":\"demo\"}").unwrap(), "demo");
    assert_eq!(new_app_request("{\"name\":\"a \\\"b\\\"\"}").unwrap(), "a \"b\"");
    assert_eq!(new_app_request("{\"title\":\"demo\"}"), Err(BodyError::Malformed));
    assert_eq!(new_app_request("{\"name\":null}"), Err(BodyError::Malformed));
    assert_eq!(new_app_request(""), Err(BodyError::Malformed));
}
