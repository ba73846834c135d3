use app_versions::api::versions;
use app_versions::release_order::{sort_versions, VersionRow};

fn row(v: &str, c: &str, d: u64) -> VersionRow {
    VersionRow { version: v.to_string(), changelog: c.to_string(), date: d }
}

fn names(rows: &[VersionRow]) -> Vec<String> {
    rows.iter().map(|r| format!("{}/{}", r.version, r.changelog)).collect()
}

#[test]
fn sorts_newest_first_by_precedence() {
    let rows = vec![
        row("1.2.0", "a", 1),
        row("1.10.0", "b", 2),
        row("0.9.1", "c", 3),
        row("garbage", "d", 4),
        row("1.10.0-beta", "e", 5),
        row("1.2.0", "f", 6),
    ];
    let out = sort_versions(rows);
    assert_eq!(
        names(&out),
        vec!["1.10.0/b", "1.10.0-beta/e", "1.2.0/a", "1.2.0/f", "0.9.1/c", "garbage/d"]
    );
}

#[test]
fn unparsable_versions_rank_as_zero_and_keep_order() {
    let rows = vec![row("x", "1", 1), row("0.0.0", "2", 2), row("y", "3", 3), row("0.0.1", "4", 4)];
    let out = versions::process(rows);
    assert_eq!(names(&out), vec!["0.0.1/4", "x/1", "0.0.0/2", "y/3"]);
}

#[test]
fn prerelease_identifiers_order() {
    let rows = vec![
        row("1.0.0-alpha", "", 0),
        row("1.0.0", "", 0),
        row("1.0.0-rc.1", "", 0),
        row("1.0.0-beta.11", "", 0),
        row("1.0.0-beta.2", "", 0),
        row("1.0.0-alpha.1", "", 0),
    ];
    let out = sort_versions(rows);
    let vs: Vec<String> = out.iter().map(|r| r.version.clone()).collect();
    assert_eq!(
        vs,
        vec!["1.0.0", "1.0.0-rc.1", "1.0.0-beta.11", "1.0.0-beta.2", "1.0.0-alpha.1", "1.0.0-alpha"]
    );
}

#[test]
fn empty_list_sorts_to_empty() {
    assert!(sort_versions(Vec::new()).is_empty());
}

#[test]
fn sort_matches_std_sort_of_semver() {
    let input = ["3.0.0", "1.0.0+build", "1.0.0", "bad", "2.1.3", "2.1.3-x", "10.0.0", "0.1.0"];
    let rows: Vec<VersionRow> = input.iter().enumerate().map(|(i, v)| row(v, &i.to_string(), 0)).collect();
    let out = sort_versions(rows);
    let mut expected: Vec<(semver::Version, String)> = input
        .iter()
        .enumerate()
        .map(|(i, v)| {
            (semver::Version::parse(v).unwrap_or(semver::Version::new(0, 0, 0)), format!("{}/{}", v, i))
        })
        .collect();
    expected.sort_by(|a, b| b.0.cmp(&a.0));
    let expected: Vec<String> = expected.into_iter().map(|x| x.1).collect();
    assert_eq!(names(&out), expected);
}

#[test]
fn sort_keeps_every_row() {
    let input = ["2.0.0", "x", "1.0.0", "x", "2.0.0"];
    let rows: Vec<VersionRow> = input.iter().enumerate().map(|(i, v)| row(v, &i.to_string(), i as u64)).collect();
    let out = sort_versions(rows);
    let mut got: Vec<String> = names(&out);
    got.sort();
    let mut want: Vec<String> = input.iter().enumerate().map(|(i, v)| format!("{}/{}", v, i)).collect();
    want.sort();
    assert_eq!(got, want);
}
