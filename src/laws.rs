//! Properties of the store that relate several operations.

use vstd::prelude::*;
use crate::document::{CreateDocument, DocumentView, Timestamp, stored_form};
use crate::status::DocStatus;
use crate::store::{
    after_create, after_delete, after_rename, after_set_status, has_id, ids_ascending, index_of,
    insert_pos, lemma_insert_keeps_order, lemma_insert_pos,
};

verus! {

/// A document created with a fresh id is listed afterwards, at its id's
/// place in ascending order, with the fields it was created with; every
/// other document is listed as before.
pub proof fn lemma_create_then_list(s: Seq<DocumentView>, p: CreateDocument, at: Timestamp)
    requires
        ids_ascending(s),
        !has_id(s, p.id),
    ensures
        ids_ascending(after_create(s, p, at)),
        after_create(s, p, at).len() == s.len() + 1,
        after_create(s, p, at)[insert_pos(s, p.id)] == stored_form(p, at),
        after_create(s, p, at).remove(insert_pos(s, p.id)) == s,
        has_id(after_create(s, p, at), p.id),
        after_create(s, p, at)[index_of(after_create(s, p, at), p.id)] == stored_form(p, at),
{
    lemma_insert_keeps_order(s, stored_form(p, at));
    lemma_insert_pos(s, p.id);
    let s2 = after_create(s, p, at);
    let k = insert_pos(s, p.id);
    assert(s2[k].id == p.id);
    let j = index_of(s2, p.id);
    if j < k {
        assert(s2[j].id < s2[k].id);
    } else if j > k {
        assert(s2[k].id < s2[j].id);
    }
}

/// Creating a second document with an id that is already stored is refused
/// and changes nothing: exactly one document keeps that id.
pub proof fn lemma_duplicate_create(
    s: Seq<DocumentView>,
    p: CreateDocument,
    at: Timestamp,
    q: CreateDocument,
    at2: Timestamp,
)
    requires
        ids_ascending(s),
        q.id == p.id,
    ensures
        ({
            let s1 = after_create(s, p, at);
            &&& has_id(s1, q.id)
            &&& after_create(s1, q, at2) == s1
            &&& ids_ascending(s1)
            &&& forall|i: int, j: int|
                0 <= i < s1.len() && 0 <= j < s1.len() && s1[i].id == q.id && s1[j].id == q.id
                    ==> i == j
        }),
{
    if !has_id(s, p.id) {
        lemma_create_then_list(s, p, at);
    }
    let s1 = after_create(s, p, at);
    assert forall|i: int, j: int|
        0 <= i < s1.len() && 0 <= j < s1.len() && s1[i].id == q.id && s1[j].id == q.id implies i
        == j by {
        if i < j {
            assert(s1[i].id < s1[j].id);
        } else if j < i {
            assert(s1[j].id < s1[i].id);
        }
    }
}

/// After a delete, no document has the deleted id, and the rest are still
/// listed in ascending id order.
pub proof fn lemma_delete_then_list(s: Seq<DocumentView>, id: u32)
    requires
        ids_ascending(s),
    ensures
        !has_id(after_delete(s, id), id),
        ids_ascending(after_delete(s, id)),
{
    if has_id(s, id) {
        let k = index_of(s, id);
        let s2 = after_delete(s, id);
        assert forall|i: int| 0 <= i < s2.len() implies s2[i].id != id by {
            let i0 = if i < k { i } else { i + 1 };
            assert(s2[i] == s[i0]);
            assert(s[k].id == id);
            if i0 < k {
                assert(s[i0].id < s[k].id);
            } else {
                assert(s[k].id < s[i0].id);
            }
        }
        assert forall|a: int, b: int| 0 <= a < b < s2.len() implies s2[a].id < s2[b].id by {
            let a0 = if a < k { a } else { a + 1 };
            let b0 = if b < k { b } else { b + 1 };
            assert(s2[a] == s[a0]);
            assert(s2[b] == s[b0]);
        }
    }
}

/// Deleting an id that no document has leaves every document as it was.
pub proof fn lemma_delete_missing(s: Seq<DocumentView>, id: u32)
    requires
        !has_id(s, id),
    ensures
        after_delete(s, id) == s,
{
}

/// Setting the status of a stored id changes that document's status and
/// nothing else: its id, title and creation time, and every other document,
/// stay as they were.
pub proof fn lemma_status_update_changes_only_status(s: Seq<DocumentView>, id: u32, st: DocStatus)
    requires
        has_id(s, id),
    ensures
        ({
            let s2 = after_set_status(s, id, st);
            let k = index_of(s, id);
            &&& s2.len() == s.len()
            &&& s2[k].status == st
            &&& s2[k].id == id
            &&& s2[k].title == s[k].title
            &&& s2[k].created_at == s[k].created_at
            &&& forall|j: int| 0 <= j < s.len() && j != k ==> s2[j] == s[j]
        }),
{
}

/// Renaming a stored id changes that document's title and nothing else.
pub proof fn lemma_rename_changes_only_title(s: Seq<DocumentView>, id: u32, title: Seq<char>)
    requires
        has_id(s, id),
    ensures
        ({
            let s2 = after_rename(s, id, title);
            let k = index_of(s, id);
            &&& s2.len() == s.len()
            &&& s2[k].title == title
            &&& s2[k].id == id
            &&& s2[k].status == s[k].status
            &&& s2[k].created_at == s[k].created_at
            &&& forall|j: int| 0 <= j < s.len() && j != k ==> s2[j] == s[j]
        }),
{
}

/// The collection after creating each of `ps` in turn, the k-th at time `ats[k]`.
pub open spec fn after_creates(s: Seq<DocumentView>, ps: Seq<CreateDocument>, ats: Seq<Timestamp>) -> Seq<
    DocumentView,
>
    decreases ps.len(),
{
    if ps.len() == 0 || ats.len() == 0 {
        s
    } else {
        after_create(after_creates(s, ps.drop_last(), ats.drop_last()), ps.last(), ats.last())
    }
}

/// The ids of `ps` are pairwise distinct and none is stored in `s`.
pub open spec fn fresh_distinct_ids(s: Seq<DocumentView>, ps: Seq<CreateDocument>) -> bool {
    &&& forall|i: int, j: int| 0 <= i < ps.len() && 0 <= j < ps.len() && i != j ==> ps[i].id != ps[j].id
    &&& forall|i: int| 0 <= i < ps.len() ==> !has_id(s, #[trigger] ps[i].id)
}

/// Whether `d` is one of the documents of `s`.
pub open spec fn holds(s: Seq<DocumentView>, d: DocumentView) -> bool {
    exists|i: int| 0 <= i < s.len() && s[i] == d
}

/// Creates with distinct fresh ids, applied one after another in any order
/// (as a store serialises concurrent requests), all succeed and none is lost:
/// afterwards the store holds exactly the earlier documents and one created
/// document per submission, with its fields, in ascending id order.
pub proof fn lemma_distinct_creates_all_land(
    s: Seq<DocumentView>,
    ps: Seq<CreateDocument>,
    ats: Seq<Timestamp>,
)
    requires
        ids_ascending(s),
        ats.len() == ps.len(),
        fresh_distinct_ids(s, ps),
    ensures
        forall|k: int|
            0 <= k < ps.len() ==> !has_id(
                #[trigger] after_creates(s, ps.take(k), ats.take(k)),
                ps[k].id,
            ),
        ({
            let f = after_creates(s, ps, ats);
            &&& ids_ascending(f)
            &&& f.len() == s.len() + ps.len()
            &&& forall|j: int| 0 <= j < s.len() ==> holds(f, #[trigger] s[j])
            &&& forall|k: int|
                0 <= k < ps.len() ==> holds(f, #[trigger] stored_form(ps[k], ats[k]))
            &&& forall|i: int|
                0 <= i < f.len() ==> holds(s, #[trigger] f[i]) || exists|k: int|
                    0 <= k < ps.len() && f[i] == stored_form(ps[k], ats[k])
        }),
    decreases ps.len(),
{
    if ps.len() == 0 {
        let f = after_creates(s, ps, ats);
        assert forall|j: int| 0 <= j < s.len() implies holds(f, #[trigger] s[j]) by {
            assert(f[j] == s[j]);
        }
        assert forall|i: int| 0 <= i < f.len() implies holds(s, #[trigger] f[i]) by {
            assert(s[i] == f[i]);
        }
    } else {
        let n = (ps.len() - 1) as int;
        let ps0 = ps.drop_last();
        let ats0 = ats.drop_last();
        assert(fresh_distinct_ids(s, ps0)) by {
            assert forall|i: int| 0 <= i < ps0.len() implies !has_id(s, #[trigger] ps0[i].id) by {
                assert(ps0[i] == ps[i]);
            }
        }
        lemma_distinct_creates_all_land(s, ps0, ats0);
        let f0 = after_creates(s, ps0, ats0);
        assert(ps.take(n) =~= ps0);
        assert(ats.take(n) =~= ats0);
        let x = stored_form(ps[n], ats[n]);
        // the last id is neither stored nor among the earlier creates
        assert(!has_id(f0, ps[n].id)) by {
            if has_id(f0, ps[n].id) {
                let i = choose|i: int| 0 <= i < f0.len() && f0[i].id == ps[n].id;
                if holds(s, f0[i]) {
                    let j = choose|j: int| 0 <= j < s.len() && s[j] == f0[i];
                    assert(has_id(s, ps[n].id));
                } else {
                    let k = choose|k: int| 0 <= k < ps0.len() && f0[i] == stored_form(ps0[k], ats0[k]);
                    assert(ps0[k] == ps[k]);
                }
            }
        }
        let f = after_creates(s, ps, ats);
        let kx = insert_pos(f0, ps[n].id);
        assert(f == f0.insert(kx, x));
        lemma_create_then_list(f0, ps[n], ats[n]);
        lemma_insert_pos(f0, ps[n].id);
        assert forall|k: int| 0 <= k < ps.len() implies !has_id(
            #[trigger] after_creates(s, ps.take(k), ats.take(k)),
            ps[k].id,
        ) by {
            if k < n {
                assert(ps.take(k) =~= ps0.take(k));
                assert(ats.take(k) =~= ats0.take(k));
                assert(ps0[k] == ps[k]);
            }
        }
        // every document of f0 is still in f
        assert forall|d: DocumentView| holds(f0, d) implies holds(f, d) by {
            let i = choose|i: int| 0 <= i < f0.len() && f0[i] == d;
            if i < kx {
                assert(f[i] == d);
            } else {
                assert(f[i + 1] == d);
            }
        }
        assert forall|j: int| 0 <= j < s.len() implies holds(f, #[trigger] s[j]) by {
            assert(holds(f0, s[j]));
        }
        assert forall|k: int| 0 <= k < ps.len() implies holds(f, #[trigger] stored_form(ps[k], ats[k])) by {
            if k < n {
                assert(ps0[k] == ps[k]);
                assert(ats0[k] == ats[k]);
                assert(holds(f0, stored_form(ps0[k], ats0[k])));
            } else {
                assert(f[kx] == x);
            }
        }
        assert forall|i: int| 0 <= i < f.len() implies holds(s, #[trigger] f[i]) || exists|k: int|
            0 <= k < ps.len() && f[i] == stored_form(ps[k], ats[k]) by {
            if i == kx {
                assert(f[i] == stored_form(ps[n], ats[n]));
            } else {
                let i0 = if i < kx { i } else { i - 1 };
                assert(f[i] == f0[i0]);
                if !holds(s, f0[i0]) {
                    let k = choose|k: int| 0 <= k < ps0.len() && f0[i0] == stored_form(ps0[k], ats0[k]);
                    assert(ps0[k] == ps[k]);
                    assert(ats0[k] == ats[k]);
                }
            }
        }
    }
}

} // verus!
