//! Uploads: which multipart field is stored, where it is stored, and whom the
//! stored file is recorded as created by.

use vstd::prelude::*;

use crate::auth::Claims;
use crate::decimal::{format_i32, i32_of_decimal, int_decimal, lemma_parse_int_decimal, parse_i32};
use crate::paths::{child_path_stays_inside, path_components, path_starts_with};
use crate::status::HttpStatus;

verus! {

/// What to do with the next field of an upload form.
#[derive(Debug, Clone, PartialEq, Eq)]
pub enum UploadStep {
    /// The form ended before any file: answer with this status.
    Reject(HttpStatus),
    /// The field names an empty file: go on to the next field.
    Skip,
    /// Store the field's contents as a file of this name.
    Store(String),
}

/// The file an upload is stored as.
#[derive(Debug, Clone, PartialEq, Eq)]
pub struct PendingUpload {
    /// The random id that names the stored file.
    pub id: String,
    /// The name the file was sent with.
    pub name: String,
    /// Where the contents are written: the upload directory, `/`, the id.
    pub path: String,
    /// The creator recorded for the file.
    pub creator: String,
}

/// The directory uploads are stored in.
pub fn upload_dir() -> (dir: &'static str)
    ensures
        dir@ == "./test_files"@,
{
    "./test_files"
}

/// The name a field without a file name is stored under.
pub fn unnamed_file() -> (name: &'static str)
    ensures
        name@ == "unnamed_file"@,
{
    "unnamed_file"
}

/// Decides on the next field of an upload form: `None` when the form has no
/// more fields, otherwise the field's file name if it has one. The first field
/// with a non-empty name is stored (a field without a name is stored as
/// `unnamed_file`); fields with an empty name are skipped; a form without any
/// such field is answered 400.
pub fn upload_step(field: Option<Option<String>>) -> (step: UploadStep)
    ensures
        match field {
            None => step == UploadStep::Reject(HttpStatus::BadRequest),
            Some(None) => step matches UploadStep::Store(n) && n@ == "unnamed_file"@,
            Some(Some(name)) => if name@.len() == 0 {
                step == UploadStep::Skip
            } else {
                step == UploadStep::Store(name)
            },
        },
{
    match field {
        None => UploadStep::Reject(HttpStatus::BadRequest),
        Some(None) => UploadStep::Store(String::from_str(unnamed_file())),
        Some(Some(name)) => {
            if name.as_str().is_empty() {
                UploadStep::Skip
            } else {
                UploadStep::Store(name)
            }
        },
    }
}

/// The outcome of reading the upload form: 400 when it could not be read.
pub fn multipart_outcome<T, E>(read: Result<T, E>) -> (r: Result<T, HttpStatus>)
    ensures
        match read {
            Ok(t) => r == Ok::<T, HttpStatus>(t),
            Err(_) => r == Err::<T, HttpStatus>(HttpStatus::BadRequest),
        },
{
    match read {
        Ok(t) => Ok(t),
        Err(_) => Err(HttpStatus::BadRequest),
    }
}

/// The account number a session subject stands for: the subject read as an
/// `i32`, 0 when it is not one.
pub open spec fn subject_number(subject: Seq<char>) -> i32 {
    match i32_of_decimal(subject) {
        Some(v) => v,
        None => 0,
    }
}

/// The creator recorded for a file uploaded in a session with subject
/// `subject`: the decimal text of the subject's account number.
pub fn creator_id(subject: &str) -> (creator: String)
    ensures
        creator@ == int_decimal(subject_number(subject@) as int),
{
    let number = match parse_i32(subject) {
        Some(v) => v,
        None => 0,
    };
    format_i32(number)
}

/// A file uploaded in a session granted to account `id` (whose subject is the
/// decimal text of `id`) is recorded as created by that account, and recording
/// a creator again changes nothing.
pub proof fn creator_is_session_account(id: i32, subject: Seq<char>)
    ensures
        subject_number(int_decimal(id as int)) == id,
        int_decimal(subject_number(int_decimal(subject_number(subject) as int)) as int)
            == int_decimal(subject_number(subject) as int),
{
    lemma_parse_int_decimal(id);
    lemma_parse_int_decimal(subject_number(subject));
}

/// `dir`, a separator, and `id` (`format!("{}/{}", dir, id)`).
pub fn stored_path(dir: &str, id: &str) -> (path: String)
    ensures
        path@ == dir@ + "/"@ + id@,
{
    let mut path = String::from_str(dir);
    path.append("/");
    path.append(id);
    path
}

/// Whether `c` may appear in the hyphenated text of a UUID: a lower-case hex
/// digit or `-`.
pub open spec fn is_uuid_char(c: char) -> bool {
    ('0' <= c && c <= '9') || ('a' <= c && c <= 'f') || c == '-'
}

/// Whether `s` is the hyphenated text of a version 4 UUID: 36 characters,
/// `-` at positions 8, 13, 18 and 23, the version digit `4` at position 14,
/// a variant digit among `8`, `9`, `a`, `b` at position 19, and lower-case hex
/// digits elsewhere.
pub open spec fn is_uuid_v4_text(s: Seq<char>) -> bool {
    &&& s.len() == 36
    &&& forall|i: int| 0 <= i < 36 ==> is_uuid_char(#[trigger] s[i])
    &&& forall|i: int| 0 <= i < 36 ==> (#[trigger] s[i] == '-' <==> (i == 8 || i == 13 || i == 18
        || i == 23))
    &&& s[14] == '4'
    &&& (s[19] == '8' || s[19] == '9' || s[19] == 'a' || s[19] == 'b')
}

/// A fresh random id for a stored file: a version 4 UUID in its hyphenated
/// text form (`Uuid::new_v4().to_string()`: random bits with the version and
/// variant set, written as lower-case hex digits in groups joined by `-`).
/// Which id comes is not stated: it is random.
#[verifier::external_body]
fn new_upload_id() -> (id: String)
    ensures
        is_uuid_v4_text(id@),
{
    uuid::Uuid::new_v4().to_string()
}

/// Where and as what the file named `name`, uploaded in the session `claims`,
/// is stored: under a fresh random id directly inside the upload directory,
/// created by the session's account.
pub fn prepare_upload(name: String, claims: &Claims) -> (u: PendingUpload)
    ensures
        u.name == name,
        is_uuid_v4_text(u.id@),
        u.path@ == "./test_files"@ + "/"@ + u.id@,
        path_components(u.path@) == path_components("./test_files"@).push(u.id@),
        path_starts_with(u.path@, "./test_files"@),
        u.creator@ == int_decimal(subject_number(claims.sub@) as int),
{
    let id = new_upload_id();
    let dir = upload_dir();
    let path = stored_path(dir, id.as_str());
    proof {
        reveal_strlit("/");
        reveal_strlit("./test_files");
        assert("/"@ =~= seq!['/']);
        assert forall|i: int| 0 <= i < id@.len() implies id@[i] != '/' by {
            assert(is_uuid_char(id@[i]));
        }
        assert(id@ != seq!['.']);
        child_path_stays_inside(dir@, id@);
    }
    let creator = creator_id(claims.sub.as_str());
    PendingUpload { id, name, path, creator }
}

} // verus!
