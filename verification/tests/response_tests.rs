use app_versions::response::{
    json_err, ok_response, server_error, text_err_handle, ApiError, ContentKind, ResponseType,
};

#[test]
fn from_headers_picks_text_only_for_text_plain() {
    assert_eq!(ResponseType::from_headers(Some("text/plain")), ResponseType::Text);
    assert_eq!(ResponseType::from_headers(Some("application/json")), ResponseType::Json);
    assert_eq!(ResponseType::from_headers(Some("text/plain; charset=utf-8")), ResponseType::Json);
    assert_eq!(ResponseType::from_headers(Some("TEXT/PLAIN")), ResponseType::Json);
    assert_eq!(ResponseType::from_headers(None), ResponseType::Json);
}

#[test]
fn json_err_is_404_json() {
    let r = json_err("App not found");
    assert_eq!(r.status, 404);
    assert_eq!(r.content, Some(ContentKind::Json));
    assert_eq!(r.body, "{\"error\":\"App not found\"}");
}

#[test]
fn json_err_escapes_the_message() {
    let r = json_err("say \"hi\"\n\\");
    assert_eq!(r.body, "{\"error\":\"say \\\"hi\\\"\\n\\\\\"}");
    let parsed: serde_json::Value = serde_json::from_str(&r.body).unwrap();
    assert_eq!(parsed["error"], "say \"hi\"\n\\");
}

#[test]
fn text_err_handle_follows_the_format() {
    let t = text_err_handle("Version not found", ResponseType::Text);
    assert_eq!(t.status, 404);
    assert_eq!(t.content, Some(ContentKind::Text));
    assert_eq!(t.body, "Version not found");
    let j = text_err_handle("Version not found", ResponseType::Json);
    assert_eq!(j.status, 404);
    assert_eq!(j.content, Some(ContentKind::Json));
    assert_eq!(j.body, "{\"error\":\"Version not found\"}");
}

#[test]
fn error_messages() {
    assert_eq!(ApiError::AppNotFound.message(), "App not found");
    assert_eq!(ApiError::VersionNotFound.message(), "Version not found");
    assert_eq!(ApiError::NoFileForVersion.message(), "No file for version");
    assert_eq!(ApiError::NoAppVersions.message(), "No app versions found");
    assert_eq!(ApiError::NoPassword.message(), "No password");
    assert_eq!(ApiError::IncorrectPassword.message(), "Incorrect password");
    assert_eq!(ApiError::NoVersionId.message(), "No version ID");
    assert_eq!(ApiError::InvalidUuid.message(), "Invalid UUID");
    assert_eq!(ApiError::InvalidVersion.message(), "Invalid version");
    assert_eq!(ApiError::NoAccessCode.message(), "No access code");
    assert_eq!(ApiError::InvalidAccessCode.message(), "Invalid access code");
}

#[test]
fn ok_response_body() {
    let r = ok_response();
    assert_eq!(r.status, 200);
    assert_eq!(r.content, Some(ContentKind::Json));
    assert_eq!(r.body, "{\"status\":\"ok\"}");
}

#[test]
fn server_error_replies() {
    let t = server_error("boom", ResponseType::Text);
    assert_eq!(t.status, 500);
    assert_eq!(t.content, None);
    assert_eq!(t.body, "boom");
    let j = server_error("boom", ResponseType::Json);
    assert_eq!(j.status, 500);
    assert_eq!(j.content, None);
    assert_eq!(j.body, "{\"error\":\"boom\"}");
}

#[test]
fn error_bodies_read_back_as_the_message() {
    for msg in ["plain", "quote \" back \\ slash", "ctl \u{1}\u{8}\t\n\u{c}\r\u{1f} end", "héllo ✓ \u{7f}", ""] {
        let r = json_err(msg);
        let parsed: serde_json::Value = serde_json::from_str(&r.body).unwrap();
        assert_eq!(parsed["error"], msg);
        assert_eq!(parsed.as_object().unwrap().len(), 1);
    }
    assert_eq!(json_err("\u{1}").body, "{\"error\":\"\\u0001\"}");
    assert_eq!(json_err("\u{1f}").body, "{\"error\":\"\\u001f\"}");
    assert_eq!(json_err("\u{8}\u{c}").body, "{\"error\":\"\\b\\f\"}");
}
