//! The document record, as stored and as submitted for creation.

use vstd::prelude::*;
use crate::status::DocStatus;

verus! {

/// A point in time, in whole seconds since the Unix epoch (UTC).
#[derive(Clone, Copy, Debug, PartialEq, Eq, Structural)]
pub struct Timestamp {
    pub secs: i64,
}

/// A stored document.
#[derive(Debug)]
pub struct Document {
    pub id: u32,
    pub title: String,
    pub status: DocStatus,
    /// Set by the store when the document is inserted; absent on records
    /// that were written without it.
    pub created_at: Option<Timestamp>,
}

/// What a document holds, with its title as a sequence of characters.
pub struct DocumentView {
    pub id: u32,
    pub title: Seq<char>,
    pub status: DocStatus,
    pub created_at: Option<Timestamp>,
}

impl View for Document {
    type V = DocumentView;

    open spec fn view(&self) -> DocumentView {
        DocumentView {
            id: self.id,
            title: self.title@,
            status: self.status,
            created_at: self.created_at,
        }
    }
}

impl Clone for Document {
    fn clone(&self) -> (r: Document)
        ensures
            r == *self,
    {
        Document {
            id: self.id,
            title: self.title.clone(),
            status: self.status,
            created_at: self.created_at,
        }
    }
}

/// A document as a client submits it: the id is chosen by the client and
/// the creation time is left to the store.
#[derive(Debug)]
pub struct CreateDocument {
    pub id: u32,
    pub title: String,
    pub status: DocStatus,
}

impl Clone for CreateDocument {
    fn clone(&self) -> (r: CreateDocument)
        ensures
            r == *self,
    {
        CreateDocument { id: self.id, title: self.title.clone(), status: self.status }
    }
}

/// The record that the store keeps for `p` when it inserts it at time `at`.
pub open spec fn stored_form(p: CreateDocument, at: Timestamp) -> DocumentView {
    DocumentView { id: p.id, title: p.title@, status: p.status, created_at: Some(at) }
}

impl CreateDocument {
    /// The document that the store keeps for this submission when it is
    /// inserted at time `at`.
    pub fn into_document(self, at: Timestamp) -> (r: Document)
        ensures
            r@ == stored_form(self, at),
    {
        Document { id: self.id, title: self.title, status: self.status, created_at: Some(at) }
    }
}

} // verus!
