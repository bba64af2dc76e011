use docuflow::api::{
    create_doc, decode_row, delete_doc, insert_failure, list_docs, parse_status_input, rename_doc,
    response_code, update_doc_status, write_outcome, ApiError, OK_CODE,
};
use docuflow::document::{CreateDocument, Document, Timestamp};
use docuflow::status::DocStatus;
use docuflow::store::{DocStore, StoreError};

fn store_with(docs: &[(u32, &str, &str)]) -> DocStore {
    let mut store = DocStore::new();
    for (id, title, status) in docs {
        create_doc(&mut store, *id, title.to_string(), status).unwrap();
    }
    store
}

fn summary(docs: &[Document]) -> Vec<(u32, String, DocStatus)> {
    docs.iter().map(|d| (d.id, d.title.clone(), d.status)).collect()
}

#[test]
fn create_then_list_returns_document() {
    let mut store = DocStore::new();
    let created = create_doc(&mut store, 1, "NDA".to_string(), "Draft").unwrap();
    assert_eq!(created.id, 1);
    assert_eq!(created.title, "NDA");
    assert_eq!(created.status, DocStatus::Draft);
    let listed = list_docs(&store);
    assert_eq!(listed.len(), 1);
    assert_eq!(listed[0].id, 1);
    assert_eq!(listed[0].title, "NDA");
    assert_eq!(listed[0].status, DocStatus::Draft);
    assert_eq!(listed[0].created_at, created.created_at);
}

#[test]
fn duplicate_id_is_a_conflict() {
    let mut store = store_with(&[(7, "Lease", "Reviewed")]);
    let second = create_doc(&mut store, 7, "Other".to_string(), "Signed");
    assert_eq!(second.unwrap_err(), ApiError::Conflict);
    assert_eq!(response_code(Err(ApiError::Conflict)), 409);
    let listed = list_docs(&store);
    assert_eq!(summary(&listed), vec![(7, "Lease".to_string(), DocStatus::Reviewed)]);
}

#[test]
fn deleted_id_is_no_longer_listed() {
    let mut store = store_with(&[(1, "A", "Draft"), (2, "B", "Draft"), (3, "C", "Signed")]);
    assert_eq!(delete_doc(&mut store, 2), Ok(()));
    let listed = list_docs(&store);
    assert_eq!(
        summary(&listed),
        vec![(1, "A".to_string(), DocStatus::Draft), (3, "C".to_string(), DocStatus::Signed)]
    );
}

#[test]
fn deleting_missing_id_is_not_found_and_keeps_documents() {
    let mut store = store_with(&[(1, "A", "Draft")]);
    let r = delete_doc(&mut store, 99);
    assert_eq!(r, Err(ApiError::NotFound));
    assert_eq!(response_code(r), 404);
    assert_eq!(summary(&list_docs(&store)), vec![(1, "A".to_string(), DocStatus::Draft)]);
}

#[test]
fn deleting_from_empty_store_is_not_found() {
    let mut store = DocStore::new();
    assert_eq!(delete_doc(&mut store, 0), Err(ApiError::NotFound));
    assert!(list_docs(&store).is_empty());
}

#[test]
fn status_update_changes_only_status() {
    let mut store = store_with(&[(1, "A", "Draft"), (2, "B", "Draft")]);
    let before = list_docs(&store);
    assert_eq!(update_doc_status(&mut store, 2, "Reviewed"), Ok(()));
    let after = list_docs(&store);
    assert_eq!(after[1].id, 2);
    assert_eq!(after[1].title, "B");
    assert_eq!(after[1].status, DocStatus::Reviewed);
    assert_eq!(after[1].created_at, before[1].created_at);
    assert_eq!(after[0].status, DocStatus::Draft);
    assert_eq!(after[0].title, "A");
}

#[test]
fn status_update_of_missing_id_is_not_found() {
    let mut store = store_with(&[(1, "A", "Draft")]);
    assert_eq!(update_doc_status(&mut store, 5, "Signed"), Err(ApiError::NotFound));
    assert_eq!(summary(&list_docs(&store)), vec![(1, "A".to_string(), DocStatus::Draft)]);
}

#[test]
fn rename_changes_only_title() {
    let mut store = store_with(&[(4, "Draft contract", "Reviewed")]);
    let before = list_docs(&store);
    assert_eq!(rename_doc(&mut store, 4, "Final contract".to_string()), Ok(()));
    let after = list_docs(&store);
    assert_eq!(after.len(), 1);
    assert_eq!(after[0].id, 4);
    assert_eq!(after[0].title, "Final contract");
    assert_eq!(after[0].status, DocStatus::Reviewed);
    assert_eq!(after[0].created_at, before[0].created_at);
}

#[test]
fn rename_of_missing_id_is_not_found() {
    let mut store = DocStore::new();
    assert_eq!(rename_doc(&mut store, 1, "X".to_string()), Err(ApiError::NotFound));
}

#[test]
fn unknown_status_is_rejected_before_the_store() {
    let mut store = store_with(&[(1, "A", "Draft")]);
    assert_eq!(update_doc_status(&mut store, 1, "Archived"), Err(ApiError::InvalidInput));
    assert_eq!(update_doc_status(&mut store, 1, "signed"), Err(ApiError::InvalidInput));
    assert_eq!(update_doc_status(&mut store, 99, ""), Err(ApiError::InvalidInput));
    let created = create_doc(&mut store, 2, "B".to_string(), "DRAFT");
    assert_eq!(created.unwrap_err(), ApiError::InvalidInput);
    assert_eq!(summary(&list_docs(&store)), vec![(1, "A".to_string(), DocStatus::Draft)]);
    assert_eq!(response_code(Err(ApiError::InvalidInput)), 400);
}

#[test]
fn distinct_creates_all_appear() {
    let mut store = DocStore::new();
    let ids: Vec<u32> = vec![5, 3, 9, 1, 4000000000, 0];
    for id in &ids {
        let r = create_doc(&mut store, *id, format!("doc {}", id), "Draft");
        assert!(r.is_ok());
    }
    let listed = list_docs(&store);
    let listed_ids: Vec<u32> = listed.iter().map(|d| d.id).collect();
    assert_eq!(listed_ids, vec![0, 1, 3, 5, 9, 4000000000]);
    for d in &listed {
        assert_eq!(d.title, format!("doc {}", d.id));
    }
}

#[test]
fn example_nda_is_signed() {
    let mut store = DocStore::new();
    let created = create_doc(&mut store, 1, "NDA".to_string(), "Draft").unwrap();
    assert_eq!((created.id, created.title.as_str(), created.status), (1, "NDA", DocStatus::Draft));
    assert_eq!(response_code(update_doc_status(&mut store, 1, "Signed")), OK_CODE);
    assert_eq!(summary(&list_docs(&store)), vec![(1, "NDA".to_string(), DocStatus::Signed)]);
}

fn clock_secs() -> i64 {
    chrono::DateTime::<chrono::Utc>::from(std::time::SystemTime::now()).timestamp()
}

#[test]
fn creation_time_comes_from_the_clock() {
    let mut store = DocStore::new();
    let before = clock_secs();
    let created = store
        .create(CreateDocument { id: 1, title: "T".to_string(), status: DocStatus::Signed })
        .unwrap();
    let after = clock_secs();
    let at = created.created_at.expect("the store sets a creation time");
    assert!(before <= at.secs && at.secs <= after);
}

#[test]
fn documents_are_listed_by_ascending_id() {
    let mut store = DocStore::new();
    create_doc(&mut store, 2, "second".to_string(), "Draft").unwrap();
    create_doc(&mut store, 1, "first".to_string(), "Signed").unwrap();
    let listed = list_docs(&store);
    assert_eq!(
        summary(&listed),
        vec![(1, "first".to_string(), DocStatus::Signed), (2, "second".to_string(), DocStatus::Draft)]
    );
    create_doc(&mut store, 5, "fifth".to_string(), "Reviewed").unwrap();
    create_doc(&mut store, 3, "third".to_string(), "Draft").unwrap();
    let ids: Vec<u32> = list_docs(&store).iter().map(|d| d.id).collect();
    assert_eq!(ids, vec![1, 2, 3, 5]);
    assert_eq!(delete_doc(&mut store, 2), Ok(()));
    let ids: Vec<u32> = list_docs(&store).iter().map(|d| d.id).collect();
    assert_eq!(ids, vec![1, 3, 5]);
}

#[test]
fn insert_uses_the_given_time() {
    let mut store = DocStore::new();
    let at = Timestamp { secs: 1431648000 };
    let doc = CreateDocument { id: 3, title: "T".to_string(), status: DocStatus::Reviewed };
    let stored = store.insert(doc.clone(), at).unwrap();
    assert_eq!(stored.created_at, Some(at));
    assert_eq!(store.insert(doc, at).unwrap_err(), StoreError::Conflict);
    assert_eq!(store.list().len(), 1);
}

#[test]
fn status_names_round_trip() {
    for st in [DocStatus::Draft, DocStatus::Reviewed, DocStatus::Signed] {
        assert_eq!(DocStatus::parse(st.as_str()), Some(st));
        assert_eq!(parse_status_input(st.as_str()), Ok(st));
    }
    assert_eq!(DocStatus::Draft.as_str(), "Draft");
    assert_eq!(DocStatus::Reviewed.as_str(), "Reviewed");
    assert_eq!(DocStatus::Signed.as_str(), "Signed");
    assert_eq!(DocStatus::parse(" Draft"), None);
    assert_eq!(DocStatus::parse(""), None);
}

#[test]
fn error_codes() {
    assert_eq!(ApiError::InvalidInput.code(), 400);
    assert_eq!(ApiError::NotFound.code(), 404);
    assert_eq!(ApiError::Conflict.code(), 409);
    assert_eq!(ApiError::Internal.code(), 500);
    assert_eq!(response_code(Ok(())), 200);
    assert_eq!(ApiError::from_store(StoreError::Conflict), ApiError::Conflict);
    assert_eq!(ApiError::from_store(StoreError::NotFound), ApiError::NotFound);
    assert_eq!(ApiError::from_store(StoreError::InvalidRecord), ApiError::Internal);
    assert_eq!(ApiError::from_store(StoreError::Backend), ApiError::Internal);
}

#[test]
fn write_outcomes() {
    assert_eq!(write_outcome(0), Err(StoreError::NotFound));
    assert_eq!(write_outcome(1), Ok(()));
    assert_eq!(write_outcome(u64::MAX), Ok(()));
    assert_eq!(insert_failure(true), StoreError::Conflict);
    assert_eq!(insert_failure(false), StoreError::Backend);
}

#[test]
fn rows_decode() {
    let at = Some(Timestamp { secs: 10 });
    let d = decode_row(42, "Memo".to_string(), "Reviewed", at).unwrap();
    assert_eq!((d.id, d.title.as_str(), d.status, d.created_at), (42, "Memo", DocStatus::Reviewed, at));
    let max = decode_row(u32::MAX as i64, "M".to_string(), "Signed", None).unwrap();
    assert_eq!(max.id, u32::MAX);
    assert_eq!(decode_row(-1, "M".to_string(), "Signed", None).unwrap_err(), StoreError::InvalidRecord);
    assert_eq!(
        decode_row(u32::MAX as i64 + 1, "M".to_string(), "Signed", None).unwrap_err(),
        StoreError::InvalidRecord
    );
    assert_eq!(decode_row(1, "M".to_string(), "Pending", None).unwrap_err(), StoreError::InvalidRecord);
}
