//! Request handling: validating client input, running one store operation per
//! request, and turning each outcome into an HTTP status code.

use vstd::prelude::*;
use crate::document::{CreateDocument, Document, DocumentView, Timestamp};
use crate::status::{DocStatus, status_of};
use crate::store::{
    DocStore, StoreError, after_delete, after_rename, after_set_status, has_id, ids_ascending,
    insert_pos, views,
};

verus! {

/// The ways a request can fail, each with its own HTTP status code.
#[derive(Clone, Copy, Debug, PartialEq, Eq, Structural)]
pub enum ApiError {
    /// The request's input is malformed, e.g. an unknown status name.
    InvalidInput,
    /// The request targets an id that no document has.
    NotFound,
    /// The request would create a second document with an existing id.
    Conflict,
    /// The store failed or returned a record it should not hold.
    Internal,
}

/// The HTTP status code that reports `e`.
pub open spec fn code_of(e: ApiError) -> u16 {
    match e {
        ApiError::InvalidInput => 400,
        ApiError::NotFound => 404,
        ApiError::Conflict => 409,
        ApiError::Internal => 500,
    }
}

/// How a store failure is reported to the client.
pub open spec fn api_error_of(e: StoreError) -> ApiError {
    match e {
        StoreError::Conflict => ApiError::Conflict,
        StoreError::NotFound => ApiError::NotFound,
        StoreError::InvalidRecord => ApiError::Internal,
        StoreError::Backend => ApiError::Internal,
    }
}

/// The HTTP status code of a successful request.
pub const OK_CODE: u16 = 200;

impl ApiError {
    /// The HTTP status code that reports this error.
    pub fn code(&self) -> (r: u16)
        ensures
            r == code_of(*self),
    {
        match self {
            ApiError::InvalidInput => 400,
            ApiError::NotFound => 404,
            ApiError::Conflict => 409,
            ApiError::Internal => 500,
        }
    }

    /// How a store failure is reported to the client.
    pub fn from_store(e: StoreError) -> (r: ApiError)
        ensures
            r == api_error_of(e),
    {
        match e {
            StoreError::Conflict => ApiError::Conflict,
            StoreError::NotFound => ApiError::NotFound,
            StoreError::InvalidRecord => ApiError::Internal,
            StoreError::Backend => ApiError::Internal,
        }
    }
}

/// The HTTP status code for the outcome of a request: 200 on success, the
/// error's own code otherwise.
pub fn response_code(r: Result<(), ApiError>) -> (c: u16)
    ensures
        c == match r {
            Ok(()) => OK_CODE,
            Err(e) => code_of(e),
        },
{
    match r {
        Ok(()) => OK_CODE,
        Err(e) => e.code(),
    }
}

/// Reads a submitted status name; any text other than the three names is
/// invalid input.
pub fn parse_status_input(text: &str) -> (r: Result<DocStatus, ApiError>)
    ensures
        match status_of(text@) {
            Some(st) => r == Ok::<DocStatus, ApiError>(st),
            None => r == Err::<DocStatus, ApiError>(ApiError::InvalidInput),
        },
{
    match DocStatus::parse(text) {
        Some(st) => Ok(st),
        None => Err(ApiError::InvalidInput),
    }
}

/// The outcome of a single-row update or delete that touched `rows_affected`
/// rows: none means that no document had the id.
pub fn write_outcome(rows_affected: u64) -> (r: Result<(), StoreError>)
    ensures
        rows_affected == 0 <==> r == Err::<(), StoreError>(StoreError::NotFound),
        rows_affected > 0 <==> r is Ok,
{
    if rows_affected == 0 {
        Err(StoreError::NotFound)
    } else {
        Ok(())
    }
}

/// The store error for a failed insert: a violated uniqueness constraint
/// means the id is taken; anything else is a backend failure.
pub fn insert_failure(unique_violation: bool) -> (r: StoreError)
    ensures
        r == (if unique_violation { StoreError::Conflict } else { StoreError::Backend }),
{
    if unique_violation {
        StoreError::Conflict
    } else {
        StoreError::Backend
    }
}

/// Whether a stored row (id, title, status text, creation time) reads back as
/// `d`: the id fits a document id and the status text names a status.
pub open spec fn row_reads_as(
    id: i64,
    title: Seq<char>,
    status: Seq<char>,
    created_at: Option<Timestamp>,
    d: DocumentView,
) -> bool {
    &&& 0 <= id <= u32::MAX
    &&& status_of(status) is Some
    &&& d == DocumentView {
        id: id as u32,
        title: title,
        status: status_of(status)->0,
        created_at: created_at,
    }
}

/// Reads a stored row back as a document. A row whose id is out of range or
/// whose status text names no status is rejected rather than passed on.
pub fn decode_row(id: i64, title: String, status: &str, created_at: Option<Timestamp>) -> (r: Result<
    Document,
    StoreError,
>)
    ensures
        r is Ok <==> 0 <= id <= u32::MAX && status_of(status@) is Some,
        r matches Ok(d) ==> row_reads_as(id, title@, status@, created_at, d@),
        r matches Err(e) ==> e == StoreError::InvalidRecord,
{
    if id < 0 || id > u32::MAX as i64 {
        return Err(StoreError::InvalidRecord);
    }
    match DocStatus::parse(status) {
        None => Err(StoreError::InvalidRecord),
        Some(st) => Ok(Document { id: id as u32, title, status: st, created_at }),
    }
}

/// Lists every document, in ascending id order.
pub fn list_docs(store: &DocStore) -> (r: Vec<Document>)
    requires
        store.wf(),
    ensures
        views(r@) == store@,
        ids_ascending(views(r@)),
{
    store.list()
}

/// Creates a document from a submitted id, title and status name. An unknown
/// status name is rejected before the store is touched; a taken id is a
/// conflict; otherwise the document is placed at its id's position, with the
/// current time as its creation time, and returned.
pub fn create_doc(store: &mut DocStore, id: u32, title: String, status: &str) -> (r: Result<
    Document,
    ApiError,
>)
    requires
        old(store).wf(),
    ensures
        final(store).wf(),
        status_of(status@) is None ==> r == Err::<Document, ApiError>(ApiError::InvalidInput)
            && final(store)@ == old(store)@,
        status_of(status@) is Some && has_id(old(store)@, id) ==> r == Err::<Document, ApiError>(
            ApiError::Conflict,
        ) && final(store)@ == old(store)@,
        status_of(status@) is Some && !has_id(old(store)@, id) ==> r is Ok,
        r matches Ok(d) ==> {
            &&& d@.id == id
            &&& d@.title == title@
            &&& Some(d@.status) == status_of(status@)
            &&& d@.created_at is Some
            &&& final(store)@ == old(store)@.insert(insert_pos(old(store)@, id), d@)
        },
{
    let st = match parse_status_input(status) {
        Ok(st) => st,
        Err(e) => return Err(e),
    };
    let doc = CreateDocument { id, title, status: st };
    match store.create(doc) {
        Ok(d) => Ok(d),
        Err(e) => Err(ApiError::from_store(e)),
    }
}

/// Deletes the document with id `id`; `NotFound` when there is none, in which
/// case no document is touched.
pub fn delete_doc(store: &mut DocStore, id: u32) -> (r: Result<(), ApiError>)
    requires
        old(store).wf(),
    ensures
        final(store).wf(),
        final(store)@ == after_delete(old(store)@, id),
        r is Ok <==> has_id(old(store)@, id),
        r matches Err(e) ==> e == ApiError::NotFound,
{
    match store.delete(id) {
        Ok(()) => Ok(()),
        Err(e) => Err(ApiError::from_store(e)),
    }
}

/// Sets the status of document `id` from a submitted status name. An unknown
/// name is rejected before the store is touched; an unknown id is `NotFound`.
pub fn update_doc_status(store: &mut DocStore, id: u32, status: &str) -> (r: Result<(), ApiError>)
    requires
        old(store).wf(),
    ensures
        final(store).wf(),
        status_of(status@) is None ==> r == Err::<(), ApiError>(ApiError::InvalidInput)
            && final(store)@ == old(store)@,
        status_of(status@) matches Some(st) ==> {
            &&& final(store)@ == after_set_status(old(store)@, id, st)
            &&& (r is Ok <==> has_id(old(store)@, id))
            &&& (r matches Err(e) ==> e == ApiError::NotFound)
        },
{
    let st = match parse_status_input(status) {
        Ok(st) => st,
        Err(e) => return Err(e),
    };
    match store.update_status(id, st) {
        Ok(()) => Ok(()),
        Err(e) => Err(ApiError::from_store(e)),
    }
}

/// Sets the title of document `id`; `NotFound` when there is none.
pub fn rename_doc(store: &mut DocStore, id: u32, title: String) -> (r: Result<(), ApiError>)
    requires
        old(store).wf(),
    ensures
        final(store).wf(),
        final(store)@ == after_rename(old(store)@, id, title@),
        r is Ok <==> has_id(old(store)@, id),
        r matches Err(e) ==> e == ApiError::NotFound,
{
    match store.rename(id, title) {
        Ok(()) => Ok(()),
        Err(e) => Err(ApiError::from_store(e)),
    }
}

} // verus!
