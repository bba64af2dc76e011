//! The document store: an ordered collection of documents with unique ids.
//!
//! Documents are kept in ascending id order, the order of a table keyed by
//! id. Every operation is a single step on
//! the whole collection, so a caller that shares the store between concurrent
//! requests only has to hold a lock around each call.

use vstd::prelude::*;
use crate::clock;
use crate::document::{CreateDocument, Document, DocumentView, Timestamp, stored_form};
use crate::status::DocStatus;

verus! {

/// Why a store operation did not take effect.
#[derive(Clone, Copy, Debug, PartialEq, Eq, Structural)]
pub enum StoreError {
    /// A document with the submitted id already exists.
    Conflict,
    /// No document has the requested id.
    NotFound,
    /// A stored record could not be read back as a document.
    InvalidRecord,
    /// The storage backend failed.
    Backend,
}

/// Whether some document in `s` has id `id`.
pub open spec fn has_id(s: Seq<DocumentView>, id: u32) -> bool {
    exists|i: int| 0 <= i < s.len() && s[i].id == id
}

/// The ids in `s` are strictly ascending (so no two documents share an id).
pub open spec fn ids_ascending(s: Seq<DocumentView>) -> bool {
    forall|i: int, j: int| 0 <= i < j < s.len() ==> s[i].id < s[j].id
}

/// `k` splits `s` into the documents with ids below `id` and those with ids
/// at or above it.
pub open spec fn splits_at(s: Seq<DocumentView>, id: u32, k: int) -> bool {
    &&& 0 <= k <= s.len()
    &&& forall|i: int| 0 <= i < k ==> s[i].id < id
    &&& forall|i: int| k <= i < s.len() ==> s[i].id >= id
}

/// Where a document with id `id` belongs in the ascending sequence `s`.
pub open spec fn insert_pos(s: Seq<DocumentView>, id: u32) -> int {
    choose|k: int| splits_at(s, id, k)
}

/// The position of the document with id `id` in `s` (meaningful when `has_id(s, id)`).
pub open spec fn index_of(s: Seq<DocumentView>, id: u32) -> int {
    choose|i: int| 0 <= i < s.len() && s[i].id == id
}

/// Some position splits an ascending sequence at any id.
proof fn lemma_split_exists(s: Seq<DocumentView>, id: u32)
    requires
        ids_ascending(s),
    ensures
        exists|k: int| splits_at(s, id, k),
    decreases s.len(),
{
    if s.len() == 0 {
        assert(splits_at(s, id, 0));
    } else {
        let t = s.drop_last();
        assert(ids_ascending(t)) by {
            assert forall|i: int, j: int| 0 <= i < j < t.len() implies t[i].id < t[j].id by {
                assert(t[i] == s[i] && t[j] == s[j]);
            }
        }
        lemma_split_exists(t, id);
        let k0 = choose|k: int| splits_at(t, id, k);
        if s.last().id < id {
            assert forall|i: int| 0 <= i < s.len() implies s[i].id < id by {
                if i < t.len() {
                    assert(s[i].id < s.last().id);
                }
            }
            assert(splits_at(s, id, s.len() as int));
        } else {
            assert forall|i: int| 0 <= i < k0 implies s[i].id < id by {
                assert(t[i] == s[i]);
            }
            assert forall|i: int| k0 <= i < s.len() implies s[i].id >= id by {
                if i < t.len() {
                    assert(t[i] == s[i]);
                }
            }
            assert(splits_at(s, id, k0));
        }
    }
}

/// In an ascending sequence, `insert_pos` is the one position that splits it
/// at `id`, and the id is present exactly when the document there has it.
pub proof fn lemma_insert_pos(s: Seq<DocumentView>, id: u32)
    requires
        ids_ascending(s),
    ensures
        splits_at(s, id, insert_pos(s, id)),
        forall|k: int| splits_at(s, id, k) ==> k == insert_pos(s, id),
        has_id(s, id) <==> insert_pos(s, id) < s.len() && s[insert_pos(s, id)].id == id,
{
    lemma_split_exists(s, id);
    let k = insert_pos(s, id);
    assert forall|k2: int| splits_at(s, id, k2) implies k2 == k by {
        if k2 < k {
            assert(s[k2].id >= id);
        } else if k2 > k {
            assert(s[k].id < id);
        }
    }
    if has_id(s, id) {
        let j = choose|j: int| 0 <= j < s.len() && s[j].id == id;
        if j > k {
            assert(s[k].id < s[j].id);
        }
    }
}

/// Placing a document with a fresh id at its position keeps ids ascending.
pub proof fn lemma_insert_keeps_order(s: Seq<DocumentView>, x: DocumentView)
    requires
        ids_ascending(s),
        !has_id(s, x.id),
    ensures
        ids_ascending(s.insert(insert_pos(s, x.id), x)),
        s.insert(insert_pos(s, x.id), x).remove(insert_pos(s, x.id)) == s,
{
    lemma_insert_pos(s, x.id);
    let k = insert_pos(s, x.id);
    let t = s.insert(k, x);
    assert forall|a: int, b: int| 0 <= a < b < t.len() implies t[a].id < t[b].id by {
        let a0 = if a < k { a } else { a - 1 };
        let b0 = if b < k { b } else { b - 1 };
        if a < k && b < k {
            assert(s[a0].id < s[b0].id);
        } else if a == k {
            assert(s[b0].id >= x.id && s[b0].id != x.id);
        } else if b == k {
            assert(s[a0].id < x.id);
        } else if a < k {
            assert(s[a0].id < x.id);
            assert(s[b0].id >= x.id);
        } else {
            assert(s[a0].id < s[b0].id);
        }
    }
    assert(t.remove(k) =~= s);
}

/// The views of a sequence of documents.
pub open spec fn views(v: Seq<Document>) -> Seq<DocumentView> {
    v.map_values(|d: Document| d@)
}

/// The collection after creating `p` at time `at`: placed at its id's
/// position when the id is fresh, unchanged otherwise.
pub open spec fn after_create(s: Seq<DocumentView>, p: CreateDocument, at: Timestamp) -> Seq<
    DocumentView,
> {
    if has_id(s, p.id) {
        s
    } else {
        s.insert(insert_pos(s, p.id), stored_form(p, at))
    }
}

/// The collection after deleting id `id`: that document removed, the others
/// kept in order; unchanged when no document has the id.
pub open spec fn after_delete(s: Seq<DocumentView>, id: u32) -> Seq<DocumentView> {
    if has_id(s, id) {
        s.remove(index_of(s, id))
    } else {
        s
    }
}

/// The collection after setting the status of id `id` to `st`.
pub open spec fn after_set_status(s: Seq<DocumentView>, id: u32, st: DocStatus) -> Seq<
    DocumentView,
> {
    if has_id(s, id) {
        let k = index_of(s, id);
        s.update(k, DocumentView { status: st, ..s[k] })
    } else {
        s
    }
}

/// The collection after setting the title of id `id` to `title`.
pub open spec fn after_rename(s: Seq<DocumentView>, id: u32, title: Seq<char>) -> Seq<
    DocumentView,
> {
    if has_id(s, id) {
        let k = index_of(s, id);
        s.update(k, DocumentView { title: title, ..s[k] })
    } else {
        s
    }
}

/// An in-memory document store.
pub struct DocStore {
    docs: Vec<Document>,
}

impl View for DocStore {
    type V = Seq<DocumentView>;

    closed spec fn view(&self) -> Seq<DocumentView> {
        views(self.docs@)
    }
}

impl DocStore {
    /// The store's invariant: ids are strictly ascending.
    pub open spec fn wf(&self) -> bool {
        ids_ascending(self@)
    }

    /// An empty store.
    pub fn new() -> (r: DocStore)
        ensures
            r.wf(),
            r@ == Seq::<DocumentView>::empty(),
    {
        let r = DocStore { docs: Vec::new() };
        assert(r@ =~= Seq::<DocumentView>::empty());
        r
    }

    /// The position where a document with id `id` belongs: after every
    /// document with a smaller id.
    fn position(&self, id: u32) -> (r: usize)
        requires
            self.wf(),
        ensures
            r as int == insert_pos(self@, id),
            r <= self@.len(),
    {
        let n = self.docs.len();
        let mut i: usize = 0;
        while i < n && self.docs[i].id < id
            invariant
                self.wf(),
                n == self.docs@.len(),
                i <= n,
                forall|j: int| 0 <= j < i ==> self@[j].id < id,
            decreases n - i,
        {
            i += 1;
        }
        proof {
            assert(splits_at(self@, id, i as int)) by {
                assert forall|j: int| i <= j < self@.len() implies self@[j].id >= id by {
                    if j > i {
                        assert(self@[i as int].id < self@[j].id);
                    }
                }
            }
            let k = insert_pos(self@, id);
            assert(splits_at(self@, id, k));
            if k < i {
                assert(self@[k].id >= id);
            } else if k > i {
                assert(self@[i as int].id < id);
            }
        }
        i
    }

    /// The position of the document with id `id`, if there is one.
    fn find(&self, id: u32) -> (r: Option<usize>)
        requires
            self.wf(),
        ensures
            r is None <==> !has_id(self@, id),
            r matches Some(i) ==> i < self@.len() && i == index_of(self@, id),
    {
        let k = self.position(id);
        proof {
            lemma_insert_pos(self@, id);
        }
        if k < self.docs.len() && self.docs[k].id == id {
            proof {
                assert(self@[k as int].id == id);
                let j = index_of(self@, id);
                if j < k {
                    assert(self@[j].id < id);
                } else if j > k {
                    assert(self@[k as int].id < self@[j].id);
                }
            }
            Some(k)
        } else {
            None
        }
    }

    /// All documents, in ascending id order.
    pub fn list(&self) -> (r: Vec<Document>)
        requires
            self.wf(),
        ensures
            views(r@) == self@,
            ids_ascending(views(r@)),
    {
        let n = self.docs.len();
        let mut out: Vec<Document> = Vec::new();
        let mut i: usize = 0;
        while i < n
            invariant
                n == self.docs@.len(),
                i <= n,
                out@ == self.docs@.subrange(0, i as int),
            decreases n - i,
        {
            out.push(self.docs[i].clone());
            assert(out@ =~= self.docs@.subrange(0, i + 1));
            i += 1;
        }
        assert(out@ =~= self.docs@);
        out
    }

    /// Stores `doc` with creation time `at`, unless its id is taken.
    pub fn insert(&mut self, doc: CreateDocument, at: Timestamp) -> (r: Result<Document, StoreError>)
        requires
            old(self).wf(),
        ensures
            final(self).wf(),
            final(self)@ == after_create(old(self)@, doc, at),
            r is Err <==> has_id(old(self)@, doc.id),
            r matches Err(e) ==> e == StoreError::Conflict,
            r matches Ok(d) ==> d@ == stored_form(doc, at),
    {
        let k = self.position(doc.id);
        proof {
            lemma_insert_pos(self@, doc.id);
        }
        if k < self.docs.len() && self.docs[k].id == doc.id {
            return Err(StoreError::Conflict);
        }
        let ghost before = self@;
        proof {
            lemma_insert_keeps_order(before, stored_form(doc, at));
        }
        let stored = doc.into_document(at);
        let reply = stored.clone();
        self.docs.insert(k, stored);
        assert(self@ =~= before.insert(k as int, stored_form(doc, at)));
        Ok(reply)
    }

    /// Stores `doc` with the current time as its creation time, unless its id
    /// is taken. Whatever time the clock gave, the outcome is that of
    /// `insert` at that time.
    pub fn create(&mut self, doc: CreateDocument) -> (r: Result<Document, StoreError>)
        requires
            old(self).wf(),
        ensures
            final(self).wf(),
            exists|at: Timestamp|
                final(self)@ == after_create(old(self)@, doc, at) && (r matches Ok(
                    d,
                ) ==> d@ == stored_form(doc, at)),
            r is Err <==> has_id(old(self)@, doc.id),
            r matches Err(e) ==> e == StoreError::Conflict,
    {
        let at = clock::now();
        self.insert(doc, at)
    }

    /// Removes the document with id `id`; `NotFound`, with nothing changed,
    /// when there is none.
    pub fn delete(&mut self, id: u32) -> (r: Result<(), StoreError>)
        requires
            old(self).wf(),
        ensures
            final(self).wf(),
            final(self)@ == after_delete(old(self)@, id),
            r is Err <==> !has_id(old(self)@, id),
            r matches Err(e) ==> e == StoreError::NotFound,
    {
        match self.find(id) {
            None => Err(StoreError::NotFound),
            Some(i) => {
                let ghost before = self@;
                self.docs.remove(i);
                assert(self@ =~= before.remove(i as int));
                assert forall|a: int, b: int| 0 <= a < b < self@.len() implies self@[a].id
                    < self@[b].id by {
                    let a0 = if a < i { a } else { a + 1 };
                    let b0 = if b < i { b } else { b + 1 };
                    assert(self@[a] == before[a0]);
                    assert(self@[b] == before[b0]);
                }
                Ok(())
            },
        }
    }

    /// Sets the status of the document with id `id`, leaving its other fields
    /// and every other document as they were; `NotFound`, with nothing
    /// changed, when there is none.
    pub fn update_status(&mut self, id: u32, status: DocStatus) -> (r: Result<(), StoreError>)
        requires
            old(self).wf(),
        ensures
            final(self).wf(),
            final(self)@ == after_set_status(old(self)@, id, status),
            r is Err <==> !has_id(old(self)@, id),
            r matches Err(e) ==> e == StoreError::NotFound,
    {
        match self.find(id) {
            None => Err(StoreError::NotFound),
            Some(i) => {
                let ghost before = self@;
                let mut d = self.docs.remove(i);
                d.status = status;
                self.docs.insert(i, d);
                assert(self@ =~= before.update(i as int, DocumentView { status: status, ..before[i as int] }));
                assert forall|a: int, b: int| 0 <= a < b < self@.len() implies self@[a].id
                    < self@[b].id by {
                    assert(self@[a].id == before[a].id);
                    assert(self@[b].id == before[b].id);
                }
                Ok(())
            },
        }
    }

    /// Sets the title of the document with id `id`, leaving its other fields
    /// and every other document as they were; `NotFound`, with nothing
    /// changed, when there is none.
    pub fn rename(&mut self, id: u32, title: String) -> (r: Result<(), StoreError>)
        requires
            old(self).wf(),
        ensures
            final(self).wf(),
            final(self)@ == after_rename(old(self)@, id, title@),
            r is Err <==> !has_id(old(self)@, id),
            r matches Err(e) ==> e == StoreError::NotFound,
    {
        match self.find(id) {
            None => Err(StoreError::NotFound),
            Some(i) => {
                let ghost before = self@;
                let ghost new_title = title@;
                let mut d = self.docs.remove(i);
                d.title = title;
                self.docs.insert(i, d);
                assert(self@ =~= before.update(i as int, DocumentView { title: new_title, ..before[i as int] }));
                assert forall|a: int, b: int| 0 <= a < b < self@.len() implies self@[a].id
                    < self@[b].id by {
                    assert(self@[a].id == before[a].id);
                    assert(self@[b].id == before[b].id);
                }
                Ok(())
            },
        }
    }
}

} // verus!
