//! The file catalog: paging through stored files, what a listing shows of each
//! file, tagging files, and the answers the catalog's requests get when a step
//! fails.

use vstd::prelude::*;

use crate::auth::Claims;
use crate::status::HttpStatus;

verus! {

/// A stored file, as the `files` table holds it.
#[derive(Debug, Clone, PartialEq, Eq)]
pub struct FileRecord {
    pub id: i64,
    pub name: String,
    pub path: String,
    pub creator: String,
}

/// The page of the file listing that a request asks for; either part may be
/// left out.
#[derive(Debug, Clone, Copy, PartialEq, Eq)]
pub struct PagingQuerry {
    pub page: Option<usize>,
    pub amount: Option<usize>,
}

/// What a listing or a search shows of a file.
#[derive(Debug, Clone, PartialEq, Eq)]
pub struct DataInfo {
    pub id: i64,
    pub name: String,
    pub path: String,
}

/// A tag to create.
#[derive(Debug, Clone, PartialEq, Eq)]
pub struct TagRequest {
    pub tag_name: String,
}

/// A file and a tag to link or unlink.
#[derive(Debug, Clone, Copy, PartialEq, Eq)]
pub struct AttachTagRequest {
    pub file_id: i64,
    pub tag_id: i64,
}

/// A search for files whose name contains `file_name`.
#[derive(Debug, Clone, PartialEq, Eq)]
pub struct SearchByNameRequest {
    pub file_name: String,
}

/// A search for files that carry every tag of `tag_ids`.
#[derive(Debug, Clone, PartialEq, Eq)]
pub struct SearchByTagRequest {
    pub tag_ids: Vec<i64>,
}

/// The page asked for, 1 when none is given.
pub open spec fn requested_page(q: PagingQuerry) -> nat {
    match q.page {
        Some(p) => p as nat,
        None => 1,
    }
}

/// The number of files per page asked for, 5 when none is given.
pub open spec fn requested_amount(q: PagingQuerry) -> nat {
    match q.amount {
        Some(a) => a as nat,
        None => 5,
    }
}

/// How many files come before the requested page. Page 0 is read as page 1.
pub open spec fn page_offset(q: PagingQuerry) -> nat {
    ((if requested_page(q) > 0 {
        requested_page(q) - 1
    } else {
        0
    }) * requested_amount(q)) as nat
}

/// Whether the offset of the page that `q` asks for fits in a `usize`.
pub fn paging_fits(q: &PagingQuerry) -> (fits: bool)
    ensures
        fits == (page_offset(*q) <= usize::MAX),
{
    let page: usize = match q.page {
        Some(p) => p,
        None => 1,
    };
    let amount: usize = match q.amount {
        Some(a) => a,
        None => 5,
    };
    page.saturating_sub(1).checked_mul(amount).is_some()
}

/// The window of the file listing that `q` selects: how many files to skip and
/// how many to return.
pub fn paging_window(q: &PagingQuerry) -> (w: (u64, u64))
    requires
        page_offset(*q) <= usize::MAX,
    ensures
        w.0 == page_offset(*q),
        w.1 == requested_amount(*q),
        q.amount matches Some(a) ==> w.1 == a,
        q.amount is None ==> w.1 == 5,
        w.0 == (match q.page {
            Some(p) => if p > 0 {
                p - 1
            } else {
                0
            },
            None => 0,
        }) * w.1,
{
    let page: usize = match q.page {
        Some(p) => p,
        None => 1,
    };
    let amount: usize = match q.amount {
        Some(a) => a,
        None => 5,
    };
    let before = page.saturating_sub(1);
    let offset = before * amount;
    (offset as u64, amount as u64)
}

/// Pages follow one another: page `page + 1` starts where page `page` ends, and
/// page 0 is page 1.
pub proof fn pages_are_contiguous(page: usize, amount: usize)
    requires
        page < usize::MAX,
    ensures
        page >= 1 ==> page_offset(PagingQuerry { page: Some((page + 1) as usize), amount: Some(amount) })
            == page_offset(PagingQuerry { page: Some(page), amount: Some(amount) }) + amount,
        page_offset(PagingQuerry { page: Some(0), amount: Some(amount) }) == page_offset(
            PagingQuerry { page: Some(1), amount: Some(amount) },
        ),
{
    if page >= 1 {
        assert(page as int * amount == (page - 1) as int * amount + amount) by (nonlinear_arith);
    }
}

/// A page holds as many files as the request asks for (5 when it does not
/// say), and that is exactly the step from one page's offset to the next: the
/// pages together list every file, none twice.
pub proof fn page_size_is_page_step(page: usize, amount: Option<usize>)
    requires
        page < usize::MAX,
    ensures
        amount matches Some(a) ==> requested_amount(PagingQuerry { page: Some(page), amount })
            == a,
        amount is None ==> requested_amount(PagingQuerry { page: Some(page), amount }) == 5,
        page >= 1 ==> page_offset(PagingQuerry { page: Some((page + 1) as usize), amount })
            == page_offset(PagingQuerry { page: Some(page), amount }) + requested_amount(
            PagingQuerry { page: Some(page), amount },
        ),
        page_offset(PagingQuerry { page: Some(1), amount }) == 0,
{
    let a = requested_amount(PagingQuerry { page: Some(page), amount });
    assert(requested_amount(PagingQuerry { page: Some(1), amount }) == a);
    assert(0 * a == 0);
    if page >= 1 {
        assert(page as int * a == (page - 1) as int * a + a) by (nonlinear_arith);
    }
}

/// What a listing shows of `file`.
pub open spec fn listed(file: FileRecord) -> DataInfo {
    DataInfo { id: file.id, name: file.name, path: file.path }
}

/// What a listing shows of each of `files`, in the same order.
pub fn data_info_list(files: &Vec<FileRecord>) -> (infos: Vec<DataInfo>)
    ensures
        infos@.len() == files@.len(),
        forall|i: int| 0 <= i < files@.len() ==> #[trigger] infos@[i] == listed(files@[i]),
        forall|i: int|
            0 <= i < files@.len() ==> (#[trigger] infos@[i]).id == files@[i].id && infos@[i].name
                == files@[i].name && infos@[i].path == files@[i].path,
{
    let mut infos: Vec<DataInfo> = Vec::new();
    let mut i: usize = 0;
    while i < files.len()
        invariant
            i <= files@.len(),
            infos@.len() == i,
            forall|j: int| 0 <= j < i ==> #[trigger] infos@[j] == listed(files@[j]),
        decreases files@.len() - i,
    {
        let f = &files[i];
        infos.push(DataInfo { id: f.id, name: f.name.clone(), path: f.path.clone() });
        i = i + 1;
    }
    infos
}

/// How a tag search is carried out: `None` when no tag is asked for (the answer
/// is an empty list, with no query), otherwise the number of tags that a file
/// must match.
pub fn tag_search_plan(request: &SearchByTagRequest) -> (plan: Option<i64>)
    ensures
        request.tag_ids@.len() == 0 ==> plan is None,
        request.tag_ids@.len() > 0 ==> plan == Some(request.tag_ids@.len() as i64),
{
    if request.tag_ids.len() == 0 {
        None
    } else {
        Some(request.tag_ids.len() as i64)
    }
}

/// Only an administrator may delete files: others get 403.
pub fn delete_permission(claims: &Claims) -> (r: Result<(), HttpStatus>)
    ensures
        r is Ok <==> claims.role@ == "admin"@,
        r is Err ==> r == Err::<(), HttpStatus>(HttpStatus::Forbidden),
{
    let admin = String::from_str("admin");
    if claims.role == admin {
        Ok(())
    } else {
        Err(HttpStatus::Forbidden)
    }
}

/// The record a lookup found: 500 when the database could not be asked, 404
/// when nothing matched.
pub fn lookup_outcome<T, E>(found: Result<Option<T>, E>) -> (r: Result<T, HttpStatus>)
    ensures
        match found {
            Ok(Some(t)) => r == Ok::<T, HttpStatus>(t),
            Ok(None) => r == Err::<T, HttpStatus>(HttpStatus::NotFound),
            Err(_) => r == Err::<T, HttpStatus>(HttpStatus::InternalServerError),
        },
{
    match found {
        Ok(Some(t)) => Ok(t),
        Ok(None) => Err(HttpStatus::NotFound),
        Err(_) => Err(HttpStatus::InternalServerError),
    }
}

/// Whether a lookup found anything: 500 when the database could not be asked.
pub fn existence_outcome<T, E>(found: Result<Option<T>, E>) -> (r: Result<bool, HttpStatus>)
    ensures
        match found {
            Ok(t) => r == Ok::<bool, HttpStatus>(t is Some),
            Err(_) => r == Err::<bool, HttpStatus>(HttpStatus::InternalServerError),
        },
{
    match found {
        Ok(t) => Ok(t.is_some()),
        Err(_) => Err(HttpStatus::InternalServerError),
    }
}

/// The outcome of a step that stores or removes data: 500 when it failed.
pub fn storage_outcome<T, E>(done: Result<T, E>) -> (r: Result<T, HttpStatus>)
    ensures
        match done {
            Ok(t) => r == Ok::<T, HttpStatus>(t),
            Err(_) => r == Err::<T, HttpStatus>(HttpStatus::InternalServerError),
        },
{
    match done {
        Ok(t) => Ok(t),
        Err(_) => Err(HttpStatus::InternalServerError),
    }
}

/// A tag is linked to a file only when both exist: 404 otherwise.
pub fn link_precheck(file_exists: bool, tag_exists: bool) -> (r: Result<(), HttpStatus>)
    ensures
        r is Ok <==> file_exists && tag_exists,
        r is Err ==> r == Err::<(), HttpStatus>(HttpStatus::NotFound),
{
    if !file_exists || !tag_exists {
        Err(HttpStatus::NotFound)
    } else {
        Ok(())
    }
}

/// The outcome of storing a file–tag link: 400 when the database refused it
/// (the link already exists).
pub fn link_outcome<E>(stored: Result<(), E>) -> (r: Result<(), HttpStatus>)
    ensures
        stored is Ok ==> r is Ok,
        stored is Err ==> r == Err::<(), HttpStatus>(HttpStatus::BadRequest),
{
    match stored {
        Ok(()) => Ok(()),
        Err(_) => Err(HttpStatus::BadRequest),
    }
}

} // verus!
