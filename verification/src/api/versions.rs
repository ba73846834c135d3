//! `GET /{app}/versions`: every version of an application, newest first.

use vstd::prelude::*;
use vstd::string::*;

use crate::api::{AppRowView, app_row_view, authorize_app, authorize_spec, str_opt_view};
use crate::api::version::{push_version_json, push_version_text, version_json_spec, version_text_spec};
use crate::release_order::{
    RowView, VersionRow, law_sort_orders_newest_first, ranks_antisymmetric, ranks_newest_first, row_views,
    sort_newest_first, sort_versions, stable_permutation,
};
use crate::response::{ApiError, ApiResponse, ContentKind, ResponseType, is_error_reply, text_err_handle};
use crate::text::{
    count_line_feeds, decimal_spec, escape_changelog_spec, lemma_count_line_feeds_concat,
    lemma_decimal_digits, lemma_escape_has_no_line_breaks, lemma_no_line_feeds, is_digit,
};

verus! {

/// The text reply: one line per version, joined by line feeds.
pub open spec fn versions_text_spec(rows: Seq<RowView>) -> Seq<char>
    decreases rows.len(),
{
    if rows.len() == 0 {
        seq![]
    } else if rows.len() == 1 {
        version_text_spec(rows[0])
    } else {
        versions_text_spec(rows.drop_last()) + "\n"@ + version_text_spec(rows.last())
    }
}

proof fn lemma_version_line_has_no_line_feed(row: RowView)
    requires
        count_line_feeds(row.0) == 0,
    ensures
        count_line_feeds(version_text_spec(row)) == 0,
{
    lemma_decimal_digits(row.2 as nat);
    let d = decimal_spec(row.2 as nat);
    assert forall|i: int| 0 <= i < d.len() implies d[i] != '\n' by {
        assert(is_digit(d[i]));
    }
    lemma_no_line_feeds(d);
    lemma_escape_has_no_line_breaks(row.1);
    lemma_no_line_feeds(escape_changelog_spec(row.1));
    reveal_strlit(",");
    lemma_no_line_feeds(","@);
    lemma_count_line_feeds_concat(row.0, ","@);
    lemma_count_line_feeds_concat(row.0 + ","@, d);
    lemma_count_line_feeds_concat(row.0 + ","@ + d, ","@);
    lemma_count_line_feeds_concat(row.0 + ","@ + d + ","@, escape_changelog_spec(row.1));
}

/// Law: when no version string holds a line feed, the text reply holds one
/// line per version (line feeds only between them).
pub proof fn law_one_line_per_version(rows: Seq<RowView>)
    requires
        rows.len() > 0,
        forall|i: int| 0 <= i < rows.len() ==> count_line_feeds(#[trigger] rows[i].0) == 0,
    ensures
        count_line_feeds(versions_text_spec(rows)) + 1 == rows.len(),
    decreases rows.len(),
{
    lemma_version_line_has_no_line_feed(rows.last());
    if rows.len() > 1 {
        let t = rows.drop_last();
        assert forall|i: int| 0 <= i < t.len() implies count_line_feeds(#[trigger] t[i].0) == 0 by {
            assert(t[i] == rows[i]);
        }
        law_one_line_per_version(t);
        assert(count_line_feeds("\n"@) == 1) by {
            reveal_strlit("\n");
            assert("\n"@.len() == 1);
            assert("\n"@.last() == '\n');
            assert("\n"@.drop_last() =~= Seq::<char>::empty());
            assert(count_line_feeds("\n"@.drop_last()) == 0);
        }
        lemma_count_line_feeds_concat(versions_text_spec(t), "\n"@);
        lemma_count_line_feeds_concat(versions_text_spec(t) + "\n"@, version_text_spec(rows.last()));
    } else {
        assert(rows[0] == rows.last());
    }
}

/// The objects of the JSON reply, joined by commas.
pub open spec fn versions_json_items(rows: Seq<RowView>) -> Seq<char>
    decreases rows.len(),
{
    if rows.len() == 0 {
        seq![]
    } else if rows.len() == 1 {
        version_json_spec(rows[0])
    } else {
        versions_json_items(rows.drop_last()) + ","@ + version_json_spec(rows.last())
    }
}

/// The JSON reply: an array of version objects.
pub open spec fn versions_json_spec(rows: Seq<RowView>) -> Seq<char> {
    "["@ + versions_json_items(rows) + "]"@
}

/// Sorts an application's versions for the list: newest first by version
/// precedence, stable, unparsable versions ranked as `0.0.0`.
pub fn process(rows: Vec<VersionRow>) -> (r: Vec<VersionRow>)
    ensures
        row_views(r@) == sort_newest_first(row_views(rows@)),
        ranks_newest_first(row_views(r@)),
        exists|p: Seq<int>| #[trigger] stable_permutation(row_views(r@), row_views(rows@), p),
{
    sort_versions(rows)
}

/// The outcome of a version list request, from the application's row, the
/// access code sent, and the application's version rows.
pub open spec fn versions_route(app: AppRowView, provided: Option<Seq<char>>, rows: Seq<RowView>) -> Result<Seq<RowView>, ApiError> {
    match authorize_spec(app, provided) {
        Err(e) => Err(e),
        Ok(_) => Ok(sort_newest_first(rows)),
    }
}

/// Decides a version list request: the sorted versions, or the refusal.
pub fn decide(
    app_row: Option<(String, Option<String>)>,
    provided_access: Option<&str>,
    rows: Vec<VersionRow>,
) -> (r: Result<Vec<VersionRow>, ApiError>)
    ensures
        match r {
            Ok(v) => versions_route(app_row_view(app_row), str_opt_view(provided_access), row_views(rows@))
                == Ok::<Seq<RowView>, ApiError>(row_views(v@)),
            Err(e) => versions_route(app_row_view(app_row), str_opt_view(provided_access), row_views(rows@))
                == Err::<Seq<RowView>, ApiError>(e),
        },
        r is Ok <==> authorize_spec(app_row_view(app_row), str_opt_view(provided_access)) is Ok,
        r matches Ok(v) ==> ranks_newest_first(row_views(v@)),
        r matches Ok(v) ==> exists|p: Seq<int>| #[trigger] stable_permutation(row_views(v@), row_views(rows@), p),
{
    match authorize_app(app_row, provided_access) {
        Err(e) => Err(e),
        Ok(_) => Ok(process(rows)),
    }
}

/// Law: a list request the application may answer gets its versions newest
/// first by precedence (no row ranks above the row before it), each stored
/// row once, rows that rank equal in their stored order; given that ranks
/// compare antisymmetrically, as semver's order does.
pub proof fn law_list_is_newest_first(app: AppRowView, provided: Option<Seq<char>>, rows: Seq<RowView>)
    requires
        authorize_spec(app, provided) is Ok,
        ranks_antisymmetric(rows),
    ensures
        versions_route(app, provided, rows) matches Ok(v) && ranks_newest_first(v) && exists|p: Seq<int>|
            #[trigger] stable_permutation(v, rows, p),
{
    law_sort_orders_newest_first(rows);
}

/// Law: a list request refused for the application gets the same answer
/// whatever versions the application has.
pub proof fn law_refused_list_request_reveals_nothing(
    app: AppRowView,
    provided: Option<Seq<char>>,
    rows1: Seq<RowView>,
    rows2: Seq<RowView>,
)
    requires
        authorize_spec(app, provided) is Err,
    ensures
        versions_route(app, provided, rows1) == versions_route(app, provided, rows2),
{
}

/// Builds the reply to a version list request from its outcome: the sorted
/// versions, or the error it was refused with.
pub fn respond(res_type: ResponseType, result: Result<Vec<VersionRow>, ApiError>) -> (r: ApiResponse)
    ensures
        match result {
            Ok(rows) => r.status == 200 && match res_type {
                ResponseType::Text => r.content == Some(ContentKind::Text)
                    && r.body@ == versions_text_spec(rows@.map_values(|x: VersionRow| x@)),
                ResponseType::Json => r.content == Some(ContentKind::Json)
                    && r.body@ == versions_json_spec(rows@.map_values(|x: VersionRow| x@)),
            },
            Err(e) => is_error_reply(r, e.message_spec(), res_type),
        },
{
    match result {
        Ok(rows) => {
            let ghost views = rows@.map_values(|x: VersionRow| x@);
            let mut body = String::new();
            match res_type {
                ResponseType::Text => {
                    let mut i: usize = 0;
                    while i < rows.len()
                        invariant
                            i <= rows@.len(),
                            views == rows@.map_values(|x: VersionRow| x@),
                            body@ == versions_text_spec(views.take(i as int)),
                        decreases rows@.len() - i,
                    {
                        let ghost before = body@;
                        if i > 0 {
                            body.append("\n");
                        }
                        push_version_text(&mut body, &rows[i]);
                        proof {
                            let t = views.take(i + 1);
                            assert(t.drop_last() =~= views.take(i as int));
                            assert(t.last() == rows@[i as int]@);
                            if i == 0 {
                                assert(body@ =~= version_text_spec(t[0]));
                            } else {
                                assert(body@ =~= before + "\n"@ + version_text_spec(t.last()));
                            }
                        }
                        i += 1;
                    }
                    assert(views.take(rows@.len() as int) =~= views);
                    ApiResponse { status: 200, content: Some(ContentKind::Text), body }
                },
                ResponseType::Json => {
                    body.append("[");
                    let mut i: usize = 0;
                    while i < rows.len()
                        invariant
                            i <= rows@.len(),
                            views == rows@.map_values(|x: VersionRow| x@),
                            body@ == "["@ + versions_json_items(views.take(i as int)),
                        decreases rows@.len() - i,
                    {
                        let ghost before = body@;
                        if i > 0 {
                            body.append(",");
                        }
                        push_version_json(&mut body, &rows[i]);
                        proof {
                            let t = views.take(i + 1);
                            assert(t.drop_last() =~= views.take(i as int));
                            assert(t.last() == rows@[i as int]@);
                            if i == 0 {
                                assert(views.take(0) =~= Seq::<RowView>::empty());
                                assert(body@ =~= "["@ + version_json_spec(t[0]));
                            } else {
                                assert(body@ =~= before + ","@ + version_json_spec(t.last()));
                            }
                        }
                        i += 1;
                    }
                    body.append("]");
                    assert(views.take(rows@.len() as int) =~= views);
                    assert(body@ =~= versions_json_spec(views));
                    ApiResponse { status: 200, content: Some(ContentKind::Json), body }
                },
            }
        },
        Err(e) => text_err_handle(e.message(), res_type),
    }
}

} // verus!
