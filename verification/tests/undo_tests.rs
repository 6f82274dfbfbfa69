use fileog::executor::{execute_operations, FsAction};
use fileog::operation::{Operation, OperationStatus, OperationType, PlannedOperation};
use fileog::store::OperationStore;
use fileog::undo::{plan_undo, undo_operations};

fn undo_planned(kind: OperationType, name: &str, src: &str, dst: &str) -> PlannedOperation {
    PlannedOperation {
        file_id: format!("fid-{}", name),
        file_name: name.to_string(),
        operation_type: kind,
        source: src.to_string(),
        destination: dst.to_string(),
        category: None,
    }
}

fn undo_record(id: &str, kind: OperationType, ts: i64) -> Operation {
    Operation {
        id: id.to_string(),
        operation_type: kind,
        source_path: "/src/a.txt".to_string(),
        destination_path: Some("/dst/a.txt".to_string()),
        original_name: Some("a.txt".to_string()),
        new_name: None,
        timestamp: ts,
        status: OperationStatus::Completed,
        batch_id: None,
        backup_path: None,
    }
}

#[test]
fn move_round_trip_restores_source() {
    // Execute a move of /src/a.txt to /dst/a.txt, then undo one step: the
    // reversal renames the destination back to the source.
    let mut store = OperationStore::new();
    let plans = vec![undo_planned(OperationType::Move, "a.txt", "/src/a.txt", "/dst/a.txt")];
    let results = execute_operations(&mut store, &plans, &vec![None], &vec!["".to_string()]);
    let candidates = store.list_recent_completed(Some(1));
    assert_eq!(candidates.len(), 1);
    assert_eq!(candidates[0].id, results[0].id);
    let action = plan_undo(&candidates[0]);
    assert_eq!(
        action,
        Some(FsAction::Rename { from: "/dst/a.txt".to_string(), to: "/src/a.txt".to_string() })
    );
    let undone = undo_operations(&mut store, &candidates, &vec![true]);
    assert_eq!(undone.len(), 1);
    assert_eq!(undone[0].id, results[0].id);
    assert!(store.list_recent_completed(Some(1)).is_empty());
}

#[test]
fn copy_round_trip_removes_the_copy() {
    // Execute a copy of /src/a.txt to /dst/a.txt, then undo one step: the
    // reversal removes the copy and never touches the source.
    let mut store = OperationStore::new();
    let plans = vec![undo_planned(OperationType::Copy, "a.txt", "/src/a.txt", "/dst/a.txt")];
    execute_operations(&mut store, &plans, &vec![None], &vec!["".to_string()]);
    let candidates = store.list_recent_completed(Some(1));
    let action = plan_undo(&candidates[0]);
    assert_eq!(action, Some(FsAction::Remove { path: "/dst/a.txt".to_string() }));
    let undone = undo_operations(&mut store, &candidates, &vec![true]);
    assert_eq!(undone.len(), 1);
}

#[test]
fn delete_undo_restores_from_backup() {
    let mut store = OperationStore::new();
    let plans = vec![undo_planned(OperationType::Delete, "a.txt", "/src/a.txt", "")];
    execute_operations(&mut store, &plans, &vec![None], &vec!["/bak/tok-a.txt".to_string()]);
    let candidates = store.list_recent_completed(Some(1));
    let action = plan_undo(&candidates[0]);
    assert_eq!(
        action,
        Some(FsAction::Rename { from: "/bak/tok-a.txt".to_string(), to: "/src/a.txt".to_string() })
    );
}

#[test]
fn delete_without_backup_is_skipped() {
    let mut rec = undo_record("x", OperationType::Delete, 1);
    rec.backup_path = None;
    assert_eq!(plan_undo(&rec), None);
}

#[test]
fn move_without_destination_is_skipped() {
    let mut rec = undo_record("x", OperationType::Move, 1);
    rec.destination_path = None;
    assert_eq!(plan_undo(&rec), None);
}

#[test]
fn undone_record_leaves_the_candidate_pool() {
    // Undoing an already-undone record a second time has no further
    // effect: the completed-only query no longer offers it.
    let mut store = OperationStore::new();
    store.append(undo_record("a", OperationType::Move, 5)).unwrap();
    let candidates = store.list_recent_completed(Some(1));
    assert_eq!(candidates.len(), 1);
    let undone = undo_operations(&mut store, &candidates, &vec![true]);
    assert_eq!(undone.len(), 1);
    let after_once = store.records();
    // A second undo pass sees no candidates at all.
    let candidates2 = store.list_recent_completed(Some(1));
    assert!(candidates2.is_empty());
    let undone2 = undo_operations(&mut store, &candidates2, &vec![]);
    assert!(undone2.is_empty());
    assert_eq!(after_once, store.records());
}

#[test]
fn failed_reversals_stay_completed_for_retry() {
    let mut store = OperationStore::new();
    store.append(undo_record("a", OperationType::Move, 2)).unwrap();
    store.append(undo_record("b", OperationType::Move, 1)).unwrap();
    let candidates = store.list_recent_completed(None);
    assert_eq!(candidates.len(), 2);
    // The first reversal succeeds, the second fails on the filesystem.
    let undone = undo_operations(&mut store, &candidates, &vec![true, false]);
    assert_eq!(undone.len(), 1);
    assert_eq!(undone[0].id, "a");
    let pool = store.list_recent_completed(None);
    assert_eq!(pool.len(), 1);
    assert_eq!(pool[0].id, "b");
}

#[test]
fn undo_returns_candidates_in_order() {
    let mut store = OperationStore::new();
    store.append(undo_record("a", OperationType::Move, 3)).unwrap();
    store.append(undo_record("b", OperationType::Move, 2)).unwrap();
    store.append(undo_record("c", OperationType::Move, 1)).unwrap();
    let candidates = store.list_recent_completed(None);
    let undone = undo_operations(&mut store, &candidates, &vec![true, true, true]);
    assert_eq!(undone.len(), 3);
    assert_eq!(undone[0].id, "a");
    assert_eq!(undone[1].id, "b");
    assert_eq!(undone[2].id, "c");
}
