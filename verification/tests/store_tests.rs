use fileog::operation::{Operation, OperationStatus, OperationType, StoreError};
use fileog::store::OperationStore;

fn completed_op(id: &str, ts: i64, batch: Option<&str>) -> Operation {
    Operation {
        id: id.to_string(),
        operation_type: OperationType::Move,
        source_path: format!("/src/{}", id),
        destination_path: Some(format!("/dst/{}", id)),
        original_name: Some(id.to_string()),
        new_name: None,
        timestamp: ts,
        status: OperationStatus::Completed,
        batch_id: batch.map(|b| b.to_string()),
        backup_path: None,
    }
}

#[test]
fn fresh_store_is_empty() {
    let store = OperationStore::new();
    assert_eq!(store.len(), 0);
    assert!(store.list_recent(None).is_empty());
    assert!(store.list_recent_completed(None).is_empty());
}

#[test]
fn append_rejects_duplicate_id() {
    let mut store = OperationStore::new();
    assert_eq!(store.append(completed_op("a", 1, None)), Ok(()));
    assert_eq!(
        store.append(completed_op("a", 2, None)),
        Err(StoreError::DuplicateId)
    );
    assert_eq!(store.len(), 1);
}

#[test]
fn contains_id_sees_appended_records() {
    let mut store = OperationStore::new();
    assert!(!store.contains_id(&"a".to_string()));
    store.append(completed_op("a", 1, None)).unwrap();
    assert!(store.contains_id(&"a".to_string()));
    assert!(!store.contains_id(&"b".to_string()));
}

#[test]
fn history_limit_two_of_five_returns_two_most_recent() {
    let mut store = OperationStore::new();
    for (id, ts) in [("a", 10), ("b", 50), ("c", 30), ("d", 20), ("e", 40)] {
        store.append(completed_op(id, ts, None)).unwrap();
    }
    let pool = store.list_recent_completed(Some(2));
    assert_eq!(pool.len(), 2);
    assert_eq!(pool[0].id, "b");
    assert_eq!(pool[0].timestamp, 50);
    assert_eq!(pool[1].id, "e");
    assert_eq!(pool[1].timestamp, 40);

    let batches = store.list_recent(Some(2));
    let mut all: Vec<&Operation> = batches.iter().flat_map(|b| b.operations.iter()).collect();
    assert_eq!(all.len(), 2);
    all.sort_by_key(|op| -op.timestamp);
    assert_eq!(all[0].id, "b");
    assert_eq!(all[1].id, "e");
}

#[test]
fn list_recent_groups_by_batch_id() {
    let mut store = OperationStore::new();
    store.append(completed_op("a", 3, Some("batch1"))).unwrap();
    store.append(completed_op("b", 2, Some("batch1"))).unwrap();
    store.append(completed_op("c", 1, Some("batch2"))).unwrap();
    let batches = store.list_recent(None);
    assert_eq!(batches.len(), 2);
    for b in &batches {
        assert!(!b.operations.is_empty());
        assert_eq!(b.created_at, b.operations[0].timestamp);
        assert_eq!(b.description, "");
        for op in &b.operations {
            let key = op.batch_id.clone().unwrap_or_else(|| op.id.clone());
            assert_eq!(key, b.id);
        }
    }
    let b1 = batches.iter().find(|b| b.id == "batch1").unwrap();
    assert_eq!(b1.operations.len(), 2);
    assert_eq!(b1.operations[0].id, "a");
    assert_eq!(b1.operations[1].id, "b");
    let b2 = batches.iter().find(|b| b.id == "batch2").unwrap();
    assert_eq!(b2.operations.len(), 1);
}

#[test]
fn list_recent_uses_own_id_without_batch() {
    let mut store = OperationStore::new();
    store.append(completed_op("solo", 1, None)).unwrap();
    let batches = store.list_recent(None);
    assert_eq!(batches.len(), 1);
    assert_eq!(batches[0].id, "solo");
}

#[test]
fn list_recent_completed_skips_other_statuses() {
    let mut store = OperationStore::new();
    store.append(completed_op("a", 1, None)).unwrap();
    let mut failed = completed_op("b", 2, None);
    failed.status = OperationStatus::Failed("denied".to_string());
    store.append(failed).unwrap();
    let mut undone = completed_op("c", 3, None);
    undone.status = OperationStatus::Undone;
    store.append(undone).unwrap();
    let pool = store.list_recent_completed(None);
    assert_eq!(pool.len(), 1);
    assert_eq!(pool[0].id, "a");
}

#[test]
fn mark_undone_is_idempotent() {
    let mut store = OperationStore::new();
    store.append(completed_op("a", 1, None)).unwrap();
    store.append(completed_op("b", 2, None)).unwrap();
    store.mark_undone(&"a".to_string());
    let after_once = store.records();
    store.mark_undone(&"a".to_string());
    let after_twice = store.records();
    assert_eq!(after_once, after_twice);
    assert_eq!(after_once[0].status, OperationStatus::Undone);
    assert_eq!(after_once[1].status, OperationStatus::Completed);
}

#[test]
fn mark_undone_ignores_missing_id() {
    let mut store = OperationStore::new();
    store.append(completed_op("a", 1, None)).unwrap();
    let before = store.records();
    store.mark_undone(&"ghostly".to_string());
    assert_eq!(before, store.records());
}

#[test]
fn clear_then_list_recent_is_empty() {
    let mut store = OperationStore::new();
    for (id, ts) in [("a", 1), ("b", 2), ("c", 3)] {
        store.append(completed_op(id, ts, None)).unwrap();
    }
    store.clear();
    assert_eq!(store.len(), 0);
    assert!(store.list_recent(None).is_empty());
    assert!(store.list_recent(Some(10)).is_empty());
    assert!(store.list_recent_completed(None).is_empty());
    assert!(store.list_recent_completed(Some(10)).is_empty());
}
