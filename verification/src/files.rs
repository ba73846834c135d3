//! Identifiers of versions and files, and what uploading or clearing a
//! version's file does to disk and to the database.

use vstd::prelude::*;
use vstd::string::*;

use crate::response::ApiError;

verus! {

/// The canonical text (hyphenated, lowercase) of the UUID that
/// `uuid::Uuid::parse_str` reads from a string, or `None` when it refuses it.
pub uninterp spec fn uuid_parse(text: Seq<char>) -> Option<Seq<char>>;

/// Parses a UUID (`uuid::Uuid::parse_str`) and writes it back in canonical
/// form. Claimed: the result is the named parse, and canonical text is 36
/// characters long (the hyphenated format that `Display` writes).
#[verifier::external_body]
fn parse_uuid(text: &str) -> (r: Option<String>)
    ensures
        match r {
            Some(u) => uuid_parse(text@) == Some(u@) && u@.len() == 36,
            None => uuid_parse(text@) is None,
        },
{
    match uuid::Uuid::parse_str(text) {
        Ok(u) => Some(u.to_string()),
        Err(_) => None,
    }
}

/// Whether a character is a lowercase hexadecimal digit.
pub open spec fn is_lower_hex(c: char) -> bool {
    ('0' <= c && c <= '9') || ('a' <= c && c <= 'f')
}

/// Whether a text is a version 4 UUID written as `Display` writes one:
/// 36 characters, hyphens at positions 8, 13, 18 and 23, lowercase hex digits
/// elsewhere, the version digit `4` at position 14 and a variant digit `8`,
/// `9`, `a` or `b` at position 19.
pub open spec fn is_uuid_v4_text(s: Seq<char>) -> bool {
    &&& s.len() == 36
    &&& forall|i: int|
        0 <= i < 36 ==> if i == 8 || i == 13 || i == 18 || i == 23 {
            #[trigger] s[i] == '-'
        } else {
            is_lower_hex(s[i])
        }
    &&& s[14] == '4'
    &&& (s[19] == '8' || s[19] == '9' || s[19] == 'a' || s[19] == 'b')
}

/// A fresh random UUID (`uuid::Uuid::new_v4`) in canonical text. The value is
/// random; claimed is what holds of every outcome, as the source shows it:
/// `new_v4` sets the version bits to 4 and the variant bits to `10`, and
/// `Display` writes the lowercase hyphenated form, which `parse_str` reads
/// back to the same UUID.
#[verifier::external_body]
fn new_uuid() -> (r: String)
    ensures
        is_uuid_v4_text(r@),
        uuid_parse(r@) == Some(r@),
{
    uuid::Uuid::new_v4().to_string()
}

/// A fresh id for a new application, version or file: a random version 4
/// UUID in canonical text.
pub fn fresh_id() -> (r: String)
    ensures
        is_uuid_v4_text(r@),
        uuid_parse(r@) == Some(r@),
{
    new_uuid()
}

/// Where the file of a version is kept, by the file's id.
pub open spec fn file_path_spec(id: Seq<char>) -> Seq<char> {
    "data/files/"@ + id
}

/// The path of a stored file: `data/files/<id>`.
pub fn format_path(uuid: &str) -> (r: String)
    ensures
        r@ == file_path_spec(uuid@),
{
    let mut out = String::from_str("data/files/");
    out.append(uuid);
    out
}

/// Reads the version id that an upload names in its `id` header and writes it
/// in canonical form.
pub fn version_id_from_header(header: Option<&str>) -> (r: Result<String, ApiError>)
    ensures
        match header {
            None => r == Err::<String, ApiError>(ApiError::NoVersionId),
            Some(h) => match uuid_parse(h@) {
                None => r == Err::<String, ApiError>(ApiError::InvalidUuid),
                Some(u) => r matches Ok(id) && id@ == u,
            },
        },
{
    match header {
        None => Err(ApiError::NoVersionId),
        Some(h) => match parse_uuid(h) {
            Some(u) => Ok(u),
            None => Err(ApiError::InvalidUuid),
        },
    }
}

/// The version id that a request to set the latest version names, in
/// canonical form: `Ok(None)` when it names none, an error when the id is not
/// a UUID (the request cannot be served then).
pub fn latest_version_id(version: Option<&str>) -> (r: Result<Option<String>, ApiError>)
    ensures
        match version {
            None => r == Ok::<Option<String>, ApiError>(None),
            Some(v) => match uuid_parse(v@) {
                None => r == Err::<Option<String>, ApiError>(ApiError::InvalidUuid),
                Some(u) => r matches Ok(Some(id)) && id@ == u,
            },
        },
{
    match version {
        None => Ok(None),
        Some(v) => match parse_uuid(v) {
            Some(u) => Ok(Some(u)),
            None => Err(ApiError::InvalidUuid),
        },
    }
}

/// What a file upload changes in the database.
#[derive(Debug)]
pub enum FileAction {
    /// Nothing: the version keeps the file it had.
    Nothing,
    /// The version no longer has a file.
    Delete,
    /// The version now has the file with this id.
    Insert(String),
}

/// A file upload's plan: the file to write the body to, the file to remove,
/// and the database change.
#[derive(Debug)]
pub struct FilePlan {
    pub write: Option<String>,
    pub remove: Option<String>,
    pub action: FileAction,
}

/// A database change by plain values: `None` for nothing, `Some(None)` to
/// clear the file, `Some(Some(id))` to set it.
pub type ActionView = Option<Option<Seq<char>>>;

/// A plan by plain values: write, remove, database change.
pub type PlanView = (Option<Seq<char>>, Option<Seq<char>>, ActionView);

impl View for FilePlan {
    type V = PlanView;

    open spec fn view(&self) -> PlanView {
        (
            match self.write { Some(p) => Some(p@), None => None },
            match self.remove { Some(p) => Some(p@), None => None },
            match self.action {
                FileAction::Nothing => None,
                FileAction::Delete => Some(None),
                FileAction::Insert(id) => Some(Some(id@)),
            },
        )
    }
}

/// The plan for an upload to a version whose current file is `current`, with
/// a non-empty body exactly when `new_file`, where `fresh` is the id a new
/// file gets: a new body overwrites the current file, or is stored under the
/// fresh id when there is none; an empty body removes the current file.
pub open spec fn file_plan_spec(current: Option<Seq<char>>, new_file: bool, fresh: Seq<char>) -> PlanView {
    match current {
        Some(f) => if new_file {
            (Some(file_path_spec(f)), None, None)
        } else {
            (None, Some(file_path_spec(f)), Some(None))
        },
        None => if new_file {
            (Some(file_path_spec(fresh)), None, Some(Some(fresh)))
        } else {
            (None, None, None)
        },
    }
}

/// Plans an upload given the id a new file would get.
pub fn plan_file_with_id(current: Option<String>, new_file: bool, fresh: String) -> (r: FilePlan)
    ensures
        r@ == file_plan_spec(match current { Some(f) => Some(f@), None => None }, new_file, fresh@),
{
    match current {
        Some(f) => {
            if new_file {
                FilePlan { write: Some(format_path(f.as_str())), remove: None, action: FileAction::Nothing }
            } else {
                FilePlan { write: None, remove: Some(format_path(f.as_str())), action: FileAction::Delete }
            }
        },
        None => {
            if new_file {
                let path = format_path(fresh.as_str());
                FilePlan { write: Some(path), remove: None, action: FileAction::Insert(fresh) }
            } else {
                FilePlan { write: None, remove: None, action: FileAction::Nothing }
            }
        },
    }
}

/// Plans an upload, drawing a fresh random id only when a new file is stored.
pub fn process_file(current: Option<String>, new_file: bool) -> (r: FilePlan)
    ensures
        current is Some || !new_file ==> r@ == file_plan_spec(
            match current { Some(f) => Some(f@), None => None },
            new_file,
            Seq::<char>::empty(),
        ),
        current is None && new_file ==> (r.action matches FileAction::Insert(id)
            && is_uuid_v4_text(id@) && uuid_parse(id@) == Some(id@)
            && r@ == file_plan_spec(None, true, id@)),
{
    if current.is_none() && new_file {
        let fresh = fresh_id();
        plan_file_with_id(current, new_file, fresh)
    } else {
        plan_file_with_id(current, new_file, String::new())
    }
}

/// Law: an empty upload never writes a file, and a version that had no file
/// is left unchanged by it.
pub proof fn law_empty_upload_writes_nothing(current: Option<Seq<char>>, fresh: Seq<char>)
    ensures
        file_plan_spec(current, false, fresh).0 is None,
        current is None ==> file_plan_spec(current, false, fresh) == (
            None::<Seq<char>>,
            None::<Seq<char>>,
            None::<Option<Seq<char>>>,
        ),
{
}

/// Law: a version's file id changes only when it had none; an existing file
/// is overwritten in place or removed, never replaced by another id.
pub proof fn law_existing_file_keeps_id(f: Seq<char>, new_file: bool, fresh: Seq<char>)
    ensures
        !(file_plan_spec(Some(f), new_file, fresh).2 matches Some(Some(_))),
        file_plan_spec(Some(f), new_file, fresh).0 is Some ==> file_plan_spec(Some(f), new_file, fresh).0
            == Some(file_path_spec(f)),
{
}

} // verus!
