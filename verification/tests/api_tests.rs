use app_versions::api::admin::{
    check_version_exists, edit_reply, find_latest_display, home_reply, summarize_app, AppSummary,
    EditRow, HomeRow,
};
use app_versions::api::{authorize_app, resolve_app, status, version, versions};
use app_versions::release_order::VersionRow;
use app_versions::response::{ApiError, ContentKind, ResponseType};

fn vrow(v: &str, c: &str, d: u64) -> VersionRow {
    VersionRow { version: v.to_string(), changelog: c.to_string(), date: d }
}

#[test]
fn resolve_app_reports_missing_app() {
    assert_eq!(resolve_app(None).unwrap_err(), ApiError::AppNotFound);
    let ok = resolve_app(Some(("id".to_string(), None))).unwrap();
    assert_eq!(ok, ("id".to_string(), None));
}

#[test]
fn authorize_app_checks_access() {
    assert_eq!(authorize_app(None, None).unwrap_err(), ApiError::AppNotFound);
    assert_eq!(authorize_app(Some(("u".to_string(), None)), None).unwrap(), "u");
    assert_eq!(
        authorize_app(Some(("u".to_string(), Some("k".to_string()))), None).unwrap_err(),
        ApiError::NoAccessCode
    );
    assert_eq!(
        authorize_app(Some(("u".to_string(), Some("k".to_string()))), Some("z")).unwrap_err(),
        ApiError::InvalidAccessCode
    );
    assert_eq!(
        authorize_app(Some(("u".to_string(), Some("k".to_string()))), Some("k")).unwrap(),
        "u"
    );
}

#[test]
fn status_decisions() {
    assert_eq!(status::process(None, None).unwrap_err(), ApiError::AppNotFound);
    assert_eq!(status::process(Some((None, None)), None).unwrap_err(), ApiError::NoAppVersions);
    assert_eq!(status::process(Some((Some("v1".to_string()), None)), None).unwrap(), "v1");
    assert_eq!(
        status::process(Some((Some("v1".to_string()), Some("c".to_string()))), None).unwrap_err(),
        ApiError::NoAccessCode
    );
}

#[test]
fn status_replies() {
    let t = status::respond(ResponseType::Text, Ok(("1.0.0".to_string(), 1650000000)));
    assert_eq!(t.status, 200);
    assert_eq!(t.content, Some(ContentKind::Text));
    assert_eq!(t.body, "1.0.0,1650000000");
    let j = status::respond(ResponseType::Json, Ok(("1.0.0".to_string(), 1650000000)));
    assert_eq!(j.content, Some(ContentKind::Json));
    assert_eq!(j.body, "{\"date\":1650000000,\"version\":\"1.0.0\"}");
    let e = status::respond(ResponseType::Text, Err(ApiError::NoAppVersions));
    assert_eq!(e.status, 404);
    assert_eq!(e.body, "No app versions found");
}

#[test]
fn status_json_matches_serde() {
    let j = status::respond(ResponseType::Json, Ok(("2.0.0-\"rc\"".to_string(), 7)));
    assert_eq!(j.body, "{\"date\":7,\"version\":\"2.0.0-\\\"rc\\\"\"}");
    let parsed: serde_json::Value = serde_json::from_str(&j.body).unwrap();
    assert_eq!(parsed["version"], "2.0.0-\"rc\"");
}

#[test]
fn version_decisions_and_replies() {
    assert_eq!(version::found_version(None).unwrap_err(), ApiError::VersionNotFound);
    let row = version::found_version(Some(vrow("1.0.0", "line1\r\nline2", 5))).unwrap();
    let t = version::respond(ResponseType::Text, Ok(row));
    assert_eq!(t.body, "1.0.0,5,line1\\nline2");
    let j = version::respond(ResponseType::Json, Ok(vrow("1.0.0", "line1\r\nline2", 5)));
    assert_eq!(j.body, "{\"changelog\":\"line1\\r\\nline2\",\"date\":5,\"version\":\"1.0.0\"}");
    let e = version::respond(ResponseType::Json, Err(ApiError::VersionNotFound));
    assert_eq!(e.body, "{\"error\":\"Version not found\"}");
}

#[test]
fn versions_replies() {
    let rows = versions::process(vec![vrow("1.0.0", "first", 1), vrow("2.0.0", "a\nb", 2)]);
    let t = versions::respond(ResponseType::Text, Ok(rows));
    assert_eq!(t.status, 200);
    assert_eq!(t.body, "2.0.0,2,a\\nb\n1.0.0,1,first");
    let rows = versions::process(vec![vrow("1.0.0", "first", 1), vrow("2.0.0", "a\nb", 2)]);
    let j = versions::respond(ResponseType::Json, Ok(rows));
    assert_eq!(
        j.body,
        "[{\"changelog\":\"a\\nb\",\"date\":2,\"version\":\"2.0.0\"},{\"changelog\":\"first\",\"date\":1,\"version\":\"1.0.0\"}]"
    );
    let empty_t = versions::respond(ResponseType::Text, Ok(Vec::new()));
    assert_eq!(empty_t.body, "");
    let empty_j = versions::respond(ResponseType::Json, Ok(Vec::new()));
    assert_eq!(empty_j.body, "[]");
    let e = versions::respond(ResponseType::Text, Err(ApiError::AppNotFound));
    assert_eq!(e.body, "App not found");
}

#[test]
fn file_decisions() {
    assert_eq!(app_versions::api::file::process(None, None, None).unwrap_err(), ApiError::VersionNotFound);
    assert_eq!(app_versions::api::file::process(Some(None), None, None).unwrap_err(), ApiError::NoFileForVersion);
    assert_eq!(
        app_versions::api::file::process(Some(Some("abc".to_string())), None, None).unwrap(),
        "data/files/abc"
    );
    assert_eq!(
        app_versions::api::file::process(Some(Some("abc".to_string())), None, Some("key")).unwrap_err(),
        ApiError::NoAccessCode
    );
    assert_eq!(
        app_versions::api::file::process(Some(None), None, Some("key")).unwrap_err(),
        ApiError::NoFileForVersion
    );
}

fn erow(file: bool, v: &str, id: &str, c: &str, d: u64, a: Option<&str>) -> EditRow {
    EditRow {
        has_file: file,
        version: v.to_string(),
        version_id: id.to_string(),
        changelog: c.to_string(),
        date: d,
        access: a.map(|x| x.to_string()),
    }
}

#[test]
fn edit_reply_lists_versions_newest_row_first() {
    let rows = vec![erow(true, "1.0.0", "id1", "one", 10, None), erow(false, "1.1.0", "id2", "two", 20, Some("k"))];
    let r = edit_reply("app", &Some("id2".to_string()), &rows);
    assert_eq!(r.status, 200);
    assert_eq!(r.content, Some(ContentKind::Json));
    assert_eq!(
        r.body,
        "{\"name\":\"app\",\"version\":\"1.1.0\",\"versions\":[{\"access\":\"k\",\"changelog\":\"two\",\"date\":20,\"file\":false,\"id\":\"id2\",\"version\":\"1.1.0\"},{\"access\":null,\"changelog\":\"one\",\"date\":10,\"file\":true,\"id\":\"id1\",\"version\":\"1.0.0\"}]}"
    );
}

#[test]
fn edit_reply_without_latest() {
    let rows = vec![erow(false, "1.0.0", "id1", "", 1, None)];
    let r = edit_reply("a", &None, &rows);
    assert_eq!(
        r.body,
        "{\"name\":\"a\",\"version\":null,\"versions\":[{\"access\":null,\"changelog\":\"\",\"date\":1,\"file\":false,\"id\":\"id1\",\"version\":\"1.0.0\"}]}"
    );
    let empty = edit_reply("a", &Some("x".to_string()), &Vec::new());
    assert_eq!(empty.body, "{\"name\":\"a\",\"version\":null,\"versions\":[]}");
}

#[test]
fn latest_display_takes_last_match() {
    let rows = vec![erow(false, "1.0.0", "same", "", 1, None), erow(false, "2.0.0", "same", "", 2, None)];
    assert_eq!(find_latest_display(&Some("same".to_string()), &rows), Some("2.0.0".to_string()));
    assert_eq!(find_latest_display(&Some("other".to_string()), &rows), None);
}

fn hrow(id: &str, v: &str, d: u64) -> HomeRow {
    HomeRow { version_id: id.to_string(), version: v.to_string(), date: d }
}

#[test]
fn summaries() {
    let rows = vec![hrow("a", "1.0.0", 50), hrow("b", "1.1.0", 300), hrow("c", "1.2.0", 200)];
    let s = summarize_app("app".to_string(), &Some("b".to_string()), 100, &rows);
    assert_eq!(s.name, "app");
    assert_eq!(s.version, "1.1.0");
    assert_eq!(s.versions, 3);
    assert_eq!(s.recent_update, 300);
    let none = summarize_app("n".to_string(), &None, 100, &Vec::new());
    assert_eq!(none.version, "0.0.0");
    assert_eq!(none.versions, 0);
    assert_eq!(none.recent_update, 100);
    let old = summarize_app("o".to_string(), &Some("zz".to_string()), 500, &rows);
    assert_eq!(old.version, "0.0.0");
    assert_eq!(old.recent_update, 500);
}

#[test]
fn home_reply_lists_last_app_first() {
    let apps = vec![
        AppSummary { name: "first".to_string(), version: "1.0.0".to_string(), versions: 1, recent_update: 5 },
        AppSummary { name: "second".to_string(), version: "0.0.0".to_string(), versions: 0, recent_update: 6 },
    ];
    let r = home_reply(&apps);
    assert_eq!(r.status, 200);
    assert_eq!(
        r.body,
        "[{\"name\":\"second\",\"recentUpdate\":6,\"version\":\"0.0.0\",\"versions\":0},{\"name\":\"first\",\"recentUpdate\":5,\"version\":\"1.0.0\",\"versions\":1}]"
    );
    assert_eq!(home_reply(&Vec::new()).body, "[]");
}

#[test]
fn version_exists_check() {
    assert_eq!(check_version_exists(0), Err(ApiError::InvalidVersion));
    assert_eq!(check_version_exists(1), Ok(()));
    assert_eq!(check_version_exists(3), Ok(()));
}

#[test]
fn text_list_has_one_line_per_version() {
    let rows = versions::process(vec![
        vrow("1.0.0", "multi\nline\r\nchangelog", 1),
        vrow("1.1.0", "\n\n", 2),
        vrow("0.1.0", "", 3),
    ]);
    let t = versions::respond(ResponseType::Text, Ok(rows));
    assert_eq!(t.body.lines().count(), 3);
    assert_eq!(t.body.matches('\n').count(), 2);
}

#[test]
fn version_decide_follows_the_route() {
    let app = Some(("u".to_string(), Some("k".to_string())));
    assert_eq!(
        version::decide(app.clone(), Some("bad"), Some(vrow("1.0.0", "c", 1))).unwrap_err(),
        ApiError::InvalidAccessCode
    );
    assert_eq!(version::decide(app.clone(), Some("bad"), None).unwrap_err(), ApiError::InvalidAccessCode);
    assert_eq!(version::decide(app.clone(), Some("k"), None).unwrap_err(), ApiError::VersionNotFound);
    let ok = version::decide(app, Some("k"), Some(vrow("1.0.0", "c", 1))).unwrap();
    assert_eq!(ok.version, "1.0.0");
    assert_eq!(version::decide(None, None, Some(vrow("1.0.0", "c", 1))).unwrap_err(), ApiError::AppNotFound);
}

#[test]
fn versions_decide_hides_versions_from_refused_requests() {
    let app = Some(("u".to_string(), Some("k".to_string())));
    let a = versions::decide(app.clone(), None, vec![vrow("1.0.0", "c", 1)]).unwrap_err();
    let b = versions::decide(app.clone(), None, Vec::new()).unwrap_err();
    assert_eq!(a, b);
    assert_eq!(a, ApiError::NoAccessCode);
    let ok = versions::decide(app, Some("k"), vec![vrow("1.0.0", "a", 1), vrow("2.0.0", "b", 2)]).unwrap();
    assert_eq!(ok[0].version, "2.0.0");
    assert_eq!(ok[1].version, "1.0.0");
}
