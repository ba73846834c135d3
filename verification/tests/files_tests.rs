use app_versions::files::{
    format_path, latest_version_id, fresh_id, plan_file_with_id, process_file, version_id_from_header,
    FileAction,
};
use app_versions::response::ApiError;

#[test]
fn paths() {
    assert_eq!(format_path("abc"), "data/files/abc");
    assert_eq!(format_path(""), "data/files/");
}

#[test]
fn version_id_header() {
    assert_eq!(version_id_from_header(None).unwrap_err(), ApiError::NoVersionId);
    assert_eq!(version_id_from_header(Some("nope")).unwrap_err(), ApiError::InvalidUuid);
    assert_eq!(
        version_id_from_header(Some("67E55044-10B1-426F-9247-BB680E5FE0C8")).unwrap(),
        "67e55044-10b1-426f-9247-bb680e5fe0c8"
    );
    assert_eq!(
        version_id_from_header(Some("67e5504410b1426f9247bb680e5fe0c8")).unwrap(),
        "67e55044-10b1-426f-9247-bb680e5fe0c8"
    );
}

#[test]
fn latest_version_ids() {
    assert_eq!(latest_version_id(None).unwrap(), None);
    assert_eq!(latest_version_id(Some("bad")).unwrap_err(), ApiError::InvalidUuid);
    assert_eq!(
        latest_version_id(Some("67E55044-10B1-426F-9247-BB680E5FE0C8")).unwrap(),
        Some("67e55044-10b1-426f-9247-bb680e5fe0c8".to_string())
    );
}

#[test]
fn fresh_uuids_are_canonical() {
    let a = fresh_id();
    let b = fresh_id();
    assert_eq!(a.len(), 36);
    for id in [&a, &b] {
        let c: Vec<char> = id.chars().collect();
        for (i, ch) in c.iter().enumerate() {
            if [8, 13, 18, 23].contains(&i) {
                assert_eq!(*ch, '-');
            } else {
                assert!(ch.is_ascii_digit() || ('a'..='f').contains(ch));
            }
        }
        assert_eq!(c[14], '4');
        assert!(['8', '9', 'a', 'b'].contains(&c[19]));
    }
    assert_ne!(a, b);
    assert_eq!(uuid::Uuid::parse_str(&a).unwrap().to_string(), a);
}

#[test]
fn plans_with_given_id() {
    let p = plan_file_with_id(Some("old".to_string()), true, "new".to_string());
    assert_eq!(p.write, Some("data/files/old".to_string()));
    assert_eq!(p.remove, None);
    assert!(matches!(p.action, FileAction::Nothing));

    let p = plan_file_with_id(Some("old".to_string()), false, "new".to_string());
    assert_eq!(p.write, None);
    assert_eq!(p.remove, Some("data/files/old".to_string()));
    assert!(matches!(p.action, FileAction::Delete));

    let p = plan_file_with_id(None, false, "new".to_string());
    assert_eq!(p.write, None);
    assert_eq!(p.remove, None);
    assert!(matches!(p.action, FileAction::Nothing));

    let p = plan_file_with_id(None, true, "new".to_string());
    assert_eq!(p.write, Some("data/files/new".to_string()));
    assert_eq!(p.remove, None);
    assert!(matches!(p.action, FileAction::Insert(ref id) if id == "new"));
}

#[test]
fn process_file_draws_an_id_only_for_new_files() {
    let p = process_file(None, true);
    match p.action {
        FileAction::Insert(id) => {
            assert_eq!(id.len(), 36);
            assert_eq!(id.chars().nth(14), Some('4'));
            assert_eq!(p.write, Some(format!("data/files/{}", id)));
        }
        _ => panic!("expected an insert"),
    }
    let p = process_file(Some("f".to_string()), false);
    assert_eq!(p.remove, Some("data/files/f".to_string()));
    let p = process_file(None, false);
    assert!(p.write.is_none() && p.remove.is_none());
}
