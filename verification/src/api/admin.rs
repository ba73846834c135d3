//! The admin requests: the overview of all applications, the editor's view of
//! one application, and the checks of the requests that change them.

use vstd::prelude::*;
use vstd::string::*;

use crate::json::{
    json_bool_text, json_opt_string_text, json_string_text, push_json_bool, push_json_opt_string,
    push_json_string,
};
use crate::api::opt_view;
use crate::response::{ApiError, ApiResponse, ContentKind};
use crate::text::{decimal_spec, push_decimal, str_eq};

verus! {

/// The reverse of a sequence.
pub open spec fn reversed<A>(s: Seq<A>) -> Seq<A> {
    Seq::new(s.len(), |i: int| s[s.len() - 1 - i])
}

/// One version of an application as the editor lists it.
#[derive(Debug)]
pub struct EditRow {
    pub has_file: bool,
    pub version: String,
    pub version_id: String,
    pub changelog: String,
    pub date: u64,
    pub access: Option<String>,
}

/// An editor row by its plain values: has file, version, id, changelog, date,
/// access code.
pub type EditView = (bool, Seq<char>, Seq<char>, Seq<char>, u64, Option<Seq<char>>);

impl View for EditRow {
    type V = EditView;

    open spec fn view(&self) -> EditView {
        (
            self.has_file,
            self.version@,
            self.version_id@,
            self.changelog@,
            self.date,
            match self.access { Some(a) => Some(a@), None => None },
        )
    }
}

/// The version string of the last row whose id is `latest`.
pub open spec fn latest_display(latest: Option<Seq<char>>, rows: Seq<EditView>) -> Option<Seq<char>>
    decreases rows.len(),
{
    if rows.len() == 0 {
        None
    } else if latest == Some(rows.last().2) {
        Some(rows.last().1)
    } else {
        latest_display(latest, rows.drop_last())
    }
}

/// Law: the editor shows a latest version exactly when some row's id is the
/// latest id, and then shows the version string of the last such row.
pub proof fn law_latest_display(latest: Option<Seq<char>>, rows: Seq<EditView>)
    ensures
        (forall|k: int| 0 <= k < rows.len() ==> latest != Some(#[trigger] rows[k].2)) ==> latest_display(
            latest,
            rows,
        ) is None,
        (exists|k: int| 0 <= k < rows.len() && latest == Some(#[trigger] rows[k].2)) ==> exists|k: int|
            0 <= k < rows.len() && latest == Some(#[trigger] rows[k].2) && latest_display(latest, rows)
                == Some(rows[k].1) && forall|m: int| k < m < rows.len() ==> latest != Some(#[trigger] rows[m].2),
    decreases rows.len(),
{
    if rows.len() > 0 {
        let t = rows.drop_last();
        law_latest_display(latest, t);
        let n = rows.len() - 1;
        assert(rows[n] == rows.last());
        if latest == Some(rows.last().2) {
            assert(latest == Some(rows[n].2));
        } else {
            assert forall|k: int| 0 <= k < t.len() implies t[k] == rows[k] by {}
            if exists|k: int| 0 <= k < rows.len() && latest == Some(#[trigger] rows[k].2) {
                let k0 = choose|k: int| 0 <= k < rows.len() && latest == Some(#[trigger] rows[k].2);
                assert(k0 < n);
                assert(latest == Some(t[k0].2));
                let k1 = choose|k: int|
                    0 <= k < t.len() && latest == Some(#[trigger] t[k].2) && latest_display(latest, t) == Some(t[k].1)
                        && forall|m: int| k < m < t.len() ==> latest != Some(#[trigger] t[m].2);
                assert(latest == Some(rows[k1].2));
                assert forall|m: int| k1 < m < rows.len() implies latest != Some(#[trigger] rows[m].2) by {
                    if m < n {
                        assert(rows[m] == t[m]);
                    }
                }
            }
            if forall|k: int| 0 <= k < rows.len() ==> latest != Some(#[trigger] rows[k].2) {
                assert forall|k: int| 0 <= k < t.len() implies latest != Some(#[trigger] t[k].2) by {
                    assert(rows[k] == t[k]);
                }
            }
        }
    }
}

/// An editor row as a JSON object, keys in sorted order.
pub open spec fn edit_item_spec(row: EditView) -> Seq<char> {
    "{\"access\":"@ + json_opt_string_text(row.5) + ",\"changelog\":"@ + json_string_text(row.3)
        + ",\"date\":"@ + decimal_spec(row.4 as nat) + ",\"file\":"@ + json_bool_text(row.0)
        + ",\"id\":"@ + json_string_text(row.2) + ",\"version\":"@ + json_string_text(row.1) + "}"@
}

/// Editor rows as JSON objects joined by commas.
pub open spec fn edit_items_spec(rows: Seq<EditView>) -> Seq<char>
    decreases rows.len(),
{
    if rows.len() == 0 {
        seq![]
    } else if rows.len() == 1 {
        edit_item_spec(rows[0])
    } else {
        edit_items_spec(rows.drop_last()) + ","@ + edit_item_spec(rows.last())
    }
}

/// The editor's view of an application: its name, the version string of its
/// latest version (`null` when none), and its versions newest row first.
pub open spec fn edit_body_spec(name: Seq<char>, latest: Option<Seq<char>>, rows: Seq<EditView>) -> Seq<char> {
    "{\"name\":"@ + json_string_text(name) + ",\"version\":"@ + json_opt_string_text(
        latest_display(latest, rows),
    ) + ",\"versions\":["@ + edit_items_spec(reversed(rows)) + "]}"@
}

/// Finds the version string of the latest version among the rows.
pub fn find_latest_display(latest: &Option<String>, rows: &Vec<EditRow>) -> (r: Option<String>)
    ensures
        (match r { Some(v) => Some(v@), None => None }) == latest_display(
            match latest { Some(l) => Some(l@), None => None },
            rows@.map_values(|x: EditRow| x@),
        ),
        (forall|k: int| 0 <= k < rows@.len() ==> opt_view(*latest) != Some(#[trigger] rows@[k].version_id@))
            ==> r is None,
        (exists|k: int| 0 <= k < rows@.len() && opt_view(*latest) == Some(#[trigger] rows@[k].version_id@))
            ==> exists|k: int|
            0 <= k < rows@.len() && opt_view(*latest) == Some(#[trigger] rows@[k].version_id@) && (r matches Some(
                v,
            ) && v@ == rows@[k].version@) && forall|m: int|
                k < m < rows@.len() ==> opt_view(*latest) != Some(#[trigger] rows@[m].version_id@),
{
    let ghost views = rows@.map_values(|x: EditRow| x@);
    let ghost l = match latest { Some(l) => Some(l@), None => None::<Seq<char>> };
    let mut found: Option<String> = None;
    let mut i: usize = 0;
    while i < rows.len()
        invariant
            i <= rows@.len(),
            views == rows@.map_values(|x: EditRow| x@),
            l == (match latest { Some(l) => Some(l@), None => None::<Seq<char>> }),
            (match found { Some(v) => Some(v@), None => None }) == latest_display(l, views.take(i as int)),
        decreases rows@.len() - i,
    {
        let row = &rows[i];
        let hit = match latest {
            Some(id) => str_eq(row.version_id.as_str(), id.as_str()),
            None => false,
        };
        if hit {
            found = Some(row.version.clone());
        }
        proof {
            let t = views.take(i + 1);
            assert(t.drop_last() =~= views.take(i as int));
            assert(t.last() == row@);
        }
        i += 1;
    }
    assert(views.take(rows@.len() as int) =~= views);
    proof {
        law_latest_display(l, views);
        assert(l == opt_view(*latest));
        if exists|k: int| 0 <= k < rows@.len() && opt_view(*latest) == Some(#[trigger] rows@[k].version_id@) {
            let k0 = choose|k: int| 0 <= k < rows@.len() && opt_view(*latest) == Some(#[trigger] rows@[k].version_id@);
            assert(views[k0] == rows@[k0]@);
            assert(l == Some(views[k0].2));
            let k1 = choose|k: int|
                0 <= k < views.len() && l == Some(#[trigger] views[k].2) && latest_display(l, views)
                    == Some(views[k].1) && forall|m: int| k < m < views.len() ==> l != Some(#[trigger] views[m].2);
            assert(views[k1] == rows@[k1]@);
            assert forall|m: int| k1 < m < rows@.len() implies opt_view(*latest) != Some(
                #[trigger] rows@[m].version_id@,
            ) by {
                assert(views[m] == rows@[m]@);
                assert(l != Some(views[m].2));
            }
        } else {
            assert forall|k: int| 0 <= k < views.len() implies l != Some(#[trigger] views[k].2) by {
                assert(views[k] == rows@[k]@);
            }
        }
    }
    found
}

/// Appends an editor row as a JSON object.
fn push_edit_item(out: &mut String, row: &EditRow)
    ensures
        final(out)@ == old(out)@ + edit_item_spec(row@),
{
    out.append("{\"access\":");
    push_json_opt_string(out, &row.access);
    out.append(",\"changelog\":");
    push_json_string(out, row.changelog.as_str());
    out.append(",\"date\":");
    push_decimal(out, row.date);
    out.append(",\"file\":");
    push_json_bool(out, row.has_file);
    out.append(",\"id\":");
    push_json_string(out, row.version_id.as_str());
    out.append(",\"version\":");
    push_json_string(out, row.version.as_str());
    out.append("}");
    assert(final(out)@ =~= old(out)@ + edit_item_spec(row@));
}

/// Builds the editor's reply for an application: status 200, JSON.
pub fn edit_reply(app_name: &str, latest: &Option<String>, rows: &Vec<EditRow>) -> (r: ApiResponse)
    ensures
        r.status == 200,
        r.content == Some(ContentKind::Json),
        r.body@ == edit_body_spec(
            app_name@,
            match latest { Some(l) => Some(l@), None => None },
            rows@.map_values(|x: EditRow| x@),
        ),
{
    let ghost views = rows@.map_values(|x: EditRow| x@);
    let ghost rev = reversed(views);
    let shown = find_latest_display(latest, rows);
    let mut body = String::new();
    body.append("{\"name\":");
    push_json_string(&mut body, app_name);
    body.append(",\"version\":");
    push_json_opt_string(&mut body, &shown);
    body.append(",\"versions\":[");
    let ghost head = body@;
    let n = rows.len();
    let mut i: usize = 0;
    while i < n
        invariant
            n == rows@.len(),
            i <= n,
            views == rows@.map_values(|x: EditRow| x@),
            rev == reversed(views),
            body@ == head + edit_items_spec(rev.take(i as int)),
        decreases n - i,
    {
        let ghost before = body@;
        if i > 0 {
            body.append(",");
        }
        push_edit_item(&mut body, &rows[n - 1 - i]);
        proof {
            let t = rev.take(i + 1);
            assert(t.drop_last() =~= rev.take(i as int));
            assert(t.last() == rows@[n - 1 - i]@);
            if i == 0 {
                assert(rev.take(0) =~= Seq::<EditView>::empty());
                assert(body@ =~= head + edit_item_spec(t[0]));
            } else {
                assert(body@ =~= before + ","@ + edit_item_spec(t.last()));
            }
        }
        i += 1;
    }
    body.append("]}");
    assert(rev.take(n as int) =~= rev);
    assert(body@ =~= edit_body_spec(
        app_name@,
        match latest { Some(l) => Some(l@), None => None },
        views,
    ));
    ApiResponse { status: 200, content: Some(ContentKind::Json), body }
}

/// One version of an application as the overview counts it.
#[derive(Debug)]
pub struct HomeRow {
    pub version_id: String,
    pub version: String,
    pub date: u64,
}

/// An overview row by its plain values: id, version, date.
pub type HomeView = (Seq<char>, Seq<char>, u64);

impl View for HomeRow {
    type V = HomeView;

    open spec fn view(&self) -> HomeView {
        (self.version_id@, self.version@, self.date)
    }
}

/// An application as the overview shows it.
#[derive(Debug)]
pub struct AppSummary {
    pub name: String,
    pub version: String,
    pub versions: u64,
    pub recent_update: u64,
}

/// A summary by its plain values: name, latest version, number of versions,
/// most recent update.
pub type SummaryView = (Seq<char>, Seq<char>, u64, u64);

impl View for AppSummary {
    type V = SummaryView;

    open spec fn view(&self) -> SummaryView {
        (self.name@, self.version@, self.versions, self.recent_update)
    }
}

/// The version string of the last row whose id is `latest`, or `0.0.0`.
pub open spec fn home_latest(latest: Option<Seq<char>>, rows: Seq<HomeView>) -> Seq<char>
    decreases rows.len(),
{
    if rows.len() == 0 {
        "0.0.0"@
    } else if latest == Some(rows.last().0) {
        rows.last().1
    } else {
        home_latest(latest, rows.drop_last())
    }
}

/// The latest of the creation date and every version's date.
pub open spec fn recent_update(created: u64, rows: Seq<HomeView>) -> u64
    decreases rows.len(),
{
    if rows.len() == 0 {
        created
    } else {
        let r = recent_update(created, rows.drop_last());
        if rows.last().2 > r { rows.last().2 } else { r }
    }
}

/// Law: the overview shows the version string of the last row whose id is
/// the latest id, and `0.0.0` exactly when no row has it.
pub proof fn law_home_latest(latest: Option<Seq<char>>, rows: Seq<HomeView>)
    ensures
        (forall|k: int| 0 <= k < rows.len() ==> latest != Some(#[trigger] rows[k].0)) ==> home_latest(latest, rows)
            == "0.0.0"@,
        (exists|k: int| 0 <= k < rows.len() && latest == Some(#[trigger] rows[k].0)) ==> exists|k: int|
            0 <= k < rows.len() && latest == Some(#[trigger] rows[k].0) && home_latest(latest, rows) == rows[k].1
                && forall|m: int| k < m < rows.len() ==> latest != Some(#[trigger] rows[m].0),
    decreases rows.len(),
{
    if rows.len() > 0 {
        let t = rows.drop_last();
        law_home_latest(latest, t);
        let n = rows.len() - 1;
        assert(rows[n] == rows.last());
        if latest == Some(rows.last().0) {
            assert(latest == Some(rows[n].0));
        } else {
            if exists|k: int| 0 <= k < rows.len() && latest == Some(#[trigger] rows[k].0) {
                let k0 = choose|k: int| 0 <= k < rows.len() && latest == Some(#[trigger] rows[k].0);
                assert(k0 < n);
                assert(latest == Some(t[k0].0));
                let k1 = choose|k: int|
                    0 <= k < t.len() && latest == Some(#[trigger] t[k].0) && home_latest(latest, t) == t[k].1
                        && forall|m: int| k < m < t.len() ==> latest != Some(#[trigger] t[m].0);
                assert(latest == Some(rows[k1].0));
                assert forall|m: int| k1 < m < rows.len() implies latest != Some(#[trigger] rows[m].0) by {
                    if m < n {
                        assert(rows[m] == t[m]);
                    }
                }
            }
            if forall|k: int| 0 <= k < rows.len() ==> latest != Some(#[trigger] rows[k].0) {
                assert forall|k: int| 0 <= k < t.len() implies latest != Some(#[trigger] t[k].0) by {
                    assert(rows[k] == t[k]);
                }
            }
        }
    }
}

/// An application's summary for the overview.
pub open spec fn summary_spec(
    name: Seq<char>,
    latest: Option<Seq<char>>,
    created: u64,
    rows: Seq<HomeView>,
) -> SummaryView {
    (name, home_latest(latest, rows), rows.len() as u64, recent_update(created, rows))
}

/// Summarizes an application for the overview: the version string of its
/// latest version (`0.0.0` when none matches), how many versions it has, and
/// its most recent update.
pub fn summarize_app(name: String, latest: &Option<String>, created: u64, rows: &Vec<HomeRow>) -> (r: AppSummary)
    ensures
        r@ == summary_spec(
            name@,
            match latest { Some(l) => Some(l@), None => None },
            created,
            rows@.map_values(|x: HomeRow| x@),
        ),
        r.versions == rows@.len(),
        (forall|k: int| 0 <= k < rows@.len() ==> opt_view(*latest) != Some(#[trigger] rows@[k].version_id@))
            ==> r.version@ == "0.0.0"@,
        (exists|k: int| 0 <= k < rows@.len() && opt_view(*latest) == Some(#[trigger] rows@[k].version_id@))
            ==> exists|k: int|
            0 <= k < rows@.len() && opt_view(*latest) == Some(#[trigger] rows@[k].version_id@) && r.version@
                == rows@[k].version@ && forall|m: int|
                k < m < rows@.len() ==> opt_view(*latest) != Some(#[trigger] rows@[m].version_id@),
        r.recent_update >= created,
        forall|k: int| 0 <= k < rows@.len() ==> r.recent_update >= (#[trigger] rows@[k]).date,
        r.recent_update == created || exists|k: int| 0 <= k < rows@.len() && r.recent_update == (#[trigger] rows@[k]).date,
{
    let ghost views = rows@.map_values(|x: HomeRow| x@);
    let ghost l = match latest { Some(l) => Some(l@), None => None::<Seq<char>> };
    let mut version = String::from_str("0.0.0");
    let mut recent = created;
    let mut count: u64 = 0;
    let mut i: usize = 0;
    proof {
        assert(views.take(0) =~= Seq::<HomeView>::empty());
    }
    while i < rows.len()
        invariant
            i <= rows@.len(),
            views == rows@.map_values(|x: HomeRow| x@),
            l == (match latest { Some(l) => Some(l@), None => None::<Seq<char>> }),
            version@ == home_latest(l, views.take(i as int)),
            recent == recent_update(created, views.take(i as int)),
            count == i,
        decreases rows@.len() - i,
    {
        let row = &rows[i];
        if row.date > recent {
            recent = row.date;
        }
        count = count + 1;
        let hit = match latest {
            Some(id) => str_eq(row.version_id.as_str(), id.as_str()),
            None => false,
        };
        if hit {
            version = row.version.clone();
        }
        proof {
            let t = views.take(i + 1);
            assert(t.drop_last() =~= views.take(i as int));
            assert(t.last() == row@);
        }
        i += 1;
    }
    assert(views.take(rows@.len() as int) =~= views);
    proof {
        law_home_latest(l, views);
        law_recent_update_is_latest(created, views);
        assert(l == opt_view(*latest));
        if exists|k: int| 0 <= k < rows@.len() && opt_view(*latest) == Some(#[trigger] rows@[k].version_id@) {
            let k0 = choose|k: int| 0 <= k < rows@.len() && opt_view(*latest) == Some(#[trigger] rows@[k].version_id@);
            assert(views[k0] == rows@[k0]@);
            assert(l == Some(views[k0].0));
            let k1 = choose|k: int|
                0 <= k < views.len() && l == Some(#[trigger] views[k].0) && home_latest(l, views) == views[k].1
                    && forall|m: int| k < m < views.len() ==> l != Some(#[trigger] views[m].0);
            assert(views[k1] == rows@[k1]@);
            assert forall|m: int| k1 < m < rows@.len() implies opt_view(*latest) != Some(
                #[trigger] rows@[m].version_id@,
            ) by {
                assert(views[m] == rows@[m]@);
                assert(l != Some(views[m].0));
            }
        } else {
            assert forall|k: int| 0 <= k < views.len() implies l != Some(#[trigger] views[k].0) by {
                assert(views[k] == rows@[k]@);
            }
        }
        assert forall|k: int| 0 <= k < rows@.len() implies recent >= (#[trigger] rows@[k]).date by {
            assert(views[k] == rows@[k]@);
            assert(recent >= views[k].2);
        }
        if recent != created {
            let k0 = choose|i: int| 0 <= i < views.len() && recent_update(created, views) == (#[trigger] views[i]).2;
            assert(views[k0] == rows@[k0]@);
            assert(recent == rows@[k0].date);
        }
    }
    AppSummary { name, version, versions: count, recent_update: recent }
}

proof fn lemma_recent_update_bounds(created: u64, rows: Seq<HomeView>)
    ensures
        recent_update(created, rows) >= created,
        forall|i: int| 0 <= i < rows.len() ==> recent_update(created, rows) >= (#[trigger] rows[i]).2,
        recent_update(created, rows) == created
            || exists|i: int| 0 <= i < rows.len() && recent_update(created, rows) == (#[trigger] rows[i]).2,
    decreases rows.len(),
{
    if rows.len() > 0 {
        let t = rows.drop_last();
        lemma_recent_update_bounds(created, t);
        assert forall|i: int| 0 <= i < rows.len() implies recent_update(created, rows) >= (#[trigger] rows[i]).2 by {
            if i < t.len() {
                assert(rows[i] == t[i]);
            }
        }
        if recent_update(created, rows) != created {
            if recent_update(created, rows) == rows.last().2 {
                assert(rows[rows.len() - 1] == rows.last());
            } else {
                let k = choose|i: int| 0 <= i < t.len() && recent_update(created, t) == (#[trigger] t[i]).2;
                assert(rows[k] == t[k]);
            }
        }
    }
}

/// Law: an application's most recent update is its creation or one of its
/// versions, and nothing of it is later.
pub proof fn law_recent_update_is_latest(created: u64, rows: Seq<HomeView>)
    ensures
        recent_update(created, rows) >= created,
        forall|i: int| 0 <= i < rows.len() ==> recent_update(created, rows) >= (#[trigger] rows[i]).2,
        recent_update(created, rows) == created
            || exists|i: int| 0 <= i < rows.len() && recent_update(created, rows) == (#[trigger] rows[i]).2,
{
    lemma_recent_update_bounds(created, rows);
}

/// An application's summary as a JSON object, keys in sorted order.
pub open spec fn summary_json_spec(s: SummaryView) -> Seq<char> {
    "{\"name\":"@ + json_string_text(s.0) + ",\"recentUpdate\":"@ + decimal_spec(s.3 as nat)
        + ",\"version\":"@ + json_string_text(s.1) + ",\"versions\":"@ + decimal_spec(s.2 as nat) + "}"@
}

/// Summaries as JSON objects joined by commas.
pub open spec fn summaries_json_items(s: Seq<SummaryView>) -> Seq<char>
    decreases s.len(),
{
    if s.len() == 0 {
        seq![]
    } else if s.len() == 1 {
        summary_json_spec(s[0])
    } else {
        summaries_json_items(s.drop_last()) + ","@ + summary_json_spec(s.last())
    }
}

/// The overview: the summaries, last application first, as a JSON array.
pub open spec fn home_body_spec(apps: Seq<SummaryView>) -> Seq<char> {
    "["@ + summaries_json_items(reversed(apps)) + "]"@
}

fn push_summary_json(out: &mut String, s: &AppSummary)
    ensures
        final(out)@ == old(out)@ + summary_json_spec(s@),
{
    out.append("{\"name\":");
    push_json_string(out, s.name.as_str());
    out.append(",\"recentUpdate\":");
    push_decimal(out, s.recent_update);
    out.append(",\"version\":");
    push_json_string(out, s.version.as_str());
    out.append(",\"versions\":");
    push_decimal(out, s.versions);
    out.append("}");
    assert(final(out)@ =~= old(out)@ + summary_json_spec(s@));
}

/// Builds the overview reply: status 200, JSON.
pub fn home_reply(apps: &Vec<AppSummary>) -> (r: ApiResponse)
    ensures
        r.status == 200,
        r.content == Some(ContentKind::Json),
        r.body@ == home_body_spec(apps@.map_values(|x: AppSummary| x@)),
{
    let ghost views = apps@.map_values(|x: AppSummary| x@);
    let ghost rev = reversed(views);
    let mut body = String::new();
    body.append("[");
    let n = apps.len();
    let mut i: usize = 0;
    while i < n
        invariant
            n == apps@.len(),
            i <= n,
            views == apps@.map_values(|x: AppSummary| x@),
            rev == reversed(views),
            body@ == "["@ + summaries_json_items(rev.take(i as int)),
        decreases n - i,
    {
        let ghost before = body@;
        if i > 0 {
            body.append(",");
        }
        push_summary_json(&mut body, &apps[n - 1 - i]);
        proof {
            let t = rev.take(i + 1);
            assert(t.drop_last() =~= rev.take(i as int));
            assert(t.last() == apps@[n - 1 - i]@);
            if i == 0 {
                assert(rev.take(0) =~= Seq::<SummaryView>::empty());
                assert(body@ =~= "["@ + summary_json_spec(t[0]));
            } else {
                assert(body@ =~= before + ","@ + summary_json_spec(t.last()));
            }
        }
        i += 1;
    }
    body.append("]");
    assert(rev.take(n as int) =~= rev);
    assert(body@ =~= home_body_spec(views));
    ApiResponse { status: 200, content: Some(ContentKind::Json), body }
}

/// Checks a request to set the latest version against the number of stored
/// versions with the named id: refused with "Invalid version" when there is
/// none.
pub fn check_version_exists(count: u64) -> (r: Result<(), ApiError>)
    ensures
        count < 1 <==> r == Err::<(), ApiError>(ApiError::InvalidVersion),
        count >= 1 <==> r is Ok,
{
    if count < 1 {
        Err(ApiError::InvalidVersion)
    } else {
        Ok(())
    }
}

} // verus!
