//! `GET /{app}/version/{version}`: one version of an application.

use vstd::prelude::*;
use vstd::string::*;

use crate::api::{AppRowView, app_row_view, authorize_app, authorize_spec, str_opt_view};
use crate::json::{json_string_text, push_json_string};
use crate::release_order::{RowView, VersionRow};
use crate::response::{ApiError, ApiResponse, ContentKind, ResponseType, is_error_reply, text_err_handle};
use crate::text::{decimal_spec, escape_changelog, escape_changelog_spec, push_decimal};

verus! {

/// Resolves the row found for the version: refused with "Version not found"
/// when there is none.
pub fn found_version(row: Option<VersionRow>) -> (r: Result<VersionRow, ApiError>)
    ensures
        match row {
            None => r == Err::<VersionRow, ApiError>(ApiError::VersionNotFound),
            Some(v) => r == Ok::<VersionRow, ApiError>(v),
        },
{
    match row {
        Some(v) => Ok(v),
        None => Err(ApiError::VersionNotFound),
    }
}

/// The outcome of a version request, from the application's row, the access
/// code sent, and the version's row as found for that application.
pub open spec fn version_route(app: AppRowView, provided: Option<Seq<char>>, row: Option<RowView>) -> Result<RowView, ApiError> {
    match authorize_spec(app, provided) {
        Err(e) => Err(e),
        Ok(_) => match row {
            None => Err(ApiError::VersionNotFound),
            Some(r) => Ok(r),
        },
    }
}

/// Decides a version request. The version's row is only read when the
/// request may see the application; when it may not, the answer is the same
/// whatever the row.
pub fn decide(
    app_row: Option<(String, Option<String>)>,
    provided_access: Option<&str>,
    version_row: Option<VersionRow>,
) -> (r: Result<VersionRow, ApiError>)
    ensures
        match r {
            Ok(v) => version_route(
                app_row_view(app_row),
                str_opt_view(provided_access),
                match version_row { Some(x) => Some(x@), None => None },
            ) == Ok::<RowView, ApiError>(v@),
            Err(e) => version_route(
                app_row_view(app_row),
                str_opt_view(provided_access),
                match version_row { Some(x) => Some(x@), None => None },
            ) == Err::<RowView, ApiError>(e),
        },
{
    match authorize_app(app_row, provided_access) {
        Err(e) => Err(e),
        Ok(_) => found_version(version_row),
    }
}

/// Law: a request refused for the application gets the same answer whatever
/// versions the application has: a refusal reveals nothing of them.
pub proof fn law_refused_version_request_reveals_nothing(
    app: AppRowView,
    provided: Option<Seq<char>>,
    row1: Option<RowView>,
    row2: Option<RowView>,
)
    requires
        authorize_spec(app, provided) is Err,
    ensures
        version_route(app, provided, row1) == version_route(app, provided, row2),
{
}

/// A version as a text line: `<version>,<date>,<escaped changelog>`.
pub open spec fn version_text_spec(row: RowView) -> Seq<char> {
    row.0 + ","@ + decimal_spec(row.2 as nat) + ","@ + escape_changelog_spec(row.1)
}

/// A version as a JSON object: `{"changelog":..,"date":..,"version":..}`.
pub open spec fn version_json_spec(row: RowView) -> Seq<char> {
    "{\"changelog\":"@ + json_string_text(row.1) + ",\"date\":"@ + decimal_spec(row.2 as nat)
        + ",\"version\":"@ + json_string_text(row.0) + "}"@
}

/// Appends a version as a text line.
pub fn push_version_text(out: &mut String, row: &VersionRow)
    ensures
        final(out)@ == old(out)@ + version_text_spec(row@),
{
    out.append(row.version.as_str());
    out.append(",");
    push_decimal(out, row.date);
    out.append(",");
    let escaped = escape_changelog(row.changelog.as_str());
    out.append(escaped.as_str());
    assert(final(out)@ =~= old(out)@ + version_text_spec(row@));
}

/// Appends a version as a JSON object.
pub fn push_version_json(out: &mut String, row: &VersionRow)
    ensures
        final(out)@ == old(out)@ + version_json_spec(row@),
{
    out.append("{\"changelog\":");
    push_json_string(out, row.changelog.as_str());
    out.append(",\"date\":");
    push_decimal(out, row.date);
    out.append(",\"version\":");
    push_json_string(out, row.version.as_str());
    out.append("}");
    assert(final(out)@ =~= old(out)@ + version_json_spec(row@));
}

/// Builds the reply to a version request from its outcome.
pub fn respond(res_type: ResponseType, result: Result<VersionRow, ApiError>) -> (r: ApiResponse)
    ensures
        match result {
            Ok(row) => r.status == 200 && match res_type {
                ResponseType::Text => r.content == Some(ContentKind::Text) && r.body@ == version_text_spec(row@),
                ResponseType::Json => r.content == Some(ContentKind::Json) && r.body@ == version_json_spec(row@),
            },
            Err(e) => is_error_reply(r, e.message_spec(), res_type),
        },
{
    match result {
        Ok(row) => {
            let mut body = String::new();
            match res_type {
                ResponseType::Text => {
                    push_version_text(&mut body, &row);
                    assert(body@ =~= version_text_spec(row@));
                    ApiResponse { status: 200, content: Some(ContentKind::Text), body }
                },
                ResponseType::Json => {
                    push_version_json(&mut body, &row);
                    assert(body@ =~= version_json_spec(row@));
                    ApiResponse { status: 200, content: Some(ContentKind::Json), body }
                },
            }
        },
        Err(e) => text_err_handle(e.message(), res_type),
    }
}

} // verus!
