use fileog::executor::{backup_destination, execute_operations, plan_operation, FsAction};
use fileog::operation::{OperationStatus, OperationType, PlannedOperation};
use fileog::store::OperationStore;

fn planned(kind: OperationType, name: &str, src: &str, dst: &str) -> PlannedOperation {
    PlannedOperation {
        file_id: format!("fid-{}", name),
        file_name: name.to_string(),
        operation_type: kind,
        source: src.to_string(),
        destination: dst.to_string(),
        category: None,
    }
}

#[test]
fn plan_move_renames_source_to_destination() {
    let p = planned(OperationType::Move, "a.txt", "/src/a.txt", "/dst/a.txt");
    let a = plan_operation(&p, &"/bak/x".to_string());
    assert_eq!(
        a,
        FsAction::Rename { from: "/src/a.txt".to_string(), to: "/dst/a.txt".to_string() }
    );
}

#[test]
fn plan_rename_behaves_like_move() {
    let p = planned(OperationType::Rename, "a.txt", "/d/a.txt", "/d/b.txt");
    let a = plan_operation(&p, &"/bak/x".to_string());
    assert_eq!(a, FsAction::Rename { from: "/d/a.txt".to_string(), to: "/d/b.txt".to_string() });
}

#[test]
fn plan_copy_duplicates_bytes() {
    let p = planned(OperationType::Copy, "a.txt", "/src/a.txt", "/dst/a.txt");
    let a = plan_operation(&p, &"/bak/x".to_string());
    assert_eq!(
        a,
        FsAction::CopyFile { from: "/src/a.txt".to_string(), to: "/dst/a.txt".to_string() }
    );
}

#[test]
fn plan_delete_relocates_to_backup() {
    let p = planned(OperationType::Delete, "a.txt", "/src/a.txt", "");
    let a = plan_operation(&p, &"/bak/x-a.txt".to_string());
    assert_eq!(
        a,
        FsAction::Rename { from: "/src/a.txt".to_string(), to: "/bak/x-a.txt".to_string() }
    );
}

#[test]
fn backup_destination_joins_parts() {
    let r = backup_destination(&"/bak".to_string(), &"tok".to_string(), &"a.txt".to_string());
    assert_eq!(r, "/bak/tok-a.txt");
}

#[test]
fn batch_output_matches_input_length_and_order() {
    let mut store = OperationStore::new();
    let plans = vec![
        planned(OperationType::Move, "a.txt", "/s/a", "/d/a"),
        planned(OperationType::Copy, "b.txt", "/s/b", "/d/b"),
        planned(OperationType::Delete, "c.txt", "/s/c", ""),
    ];
    let outcomes = vec![None, None, None];
    let backups = vec!["".to_string(), "".to_string(), "/bak/c".to_string()];
    let results = execute_operations(&mut store, &plans, &outcomes, &backups);
    assert_eq!(results.len(), 3);
    assert_eq!(results[0].source_path, "/s/a");
    assert_eq!(results[1].source_path, "/s/b");
    assert_eq!(results[2].source_path, "/s/c");
    assert_eq!(results[0].operation_type, OperationType::Move);
    assert_eq!(results[1].operation_type, OperationType::Copy);
    assert_eq!(results[2].operation_type, OperationType::Delete);
    assert_eq!(store.len(), 3);
}

#[test]
fn success_yields_completed_and_failure_yields_message() {
    let mut store = OperationStore::new();
    let plans = vec![
        planned(OperationType::Move, "a.txt", "/s/a", "/d/a"),
        planned(OperationType::Move, "b.txt", "/s/b", "/d/b"),
    ];
    let outcomes = vec![None, Some("permission denied".to_string())];
    let backups = vec!["".to_string(), "".to_string()];
    let results = execute_operations(&mut store, &plans, &outcomes, &backups);
    assert_eq!(results[0].status, OperationStatus::Completed);
    match &results[1].status {
        OperationStatus::Failed(msg) => {
            assert_eq!(msg, "permission denied");
            assert!(!msg.is_empty());
        }
        other => panic!("expected a failure status, got {:?}", other),
    }
}

#[test]
fn one_failure_does_not_stop_the_batch() {
    let mut store = OperationStore::new();
    let plans = vec![
        planned(OperationType::Move, "a.txt", "/s/a", "/d/a"),
        planned(OperationType::Move, "b.txt", "/s/b", "/d/b"),
        planned(OperationType::Move, "c.txt", "/s/c", "/d/c"),
    ];
    let outcomes = vec![None, Some("gone".to_string()), None];
    let backups = vec!["".to_string(), "".to_string(), "".to_string()];
    let results = execute_operations(&mut store, &plans, &outcomes, &backups);
    assert_eq!(results.len(), 3);
    assert_eq!(results[2].status, OperationStatus::Completed);
}

#[test]
fn batch_shares_one_generated_batch_id() {
    let mut store = OperationStore::new();
    let plans = vec![
        planned(OperationType::Move, "a.txt", "/s/a", "/d/a"),
        planned(OperationType::Copy, "b.txt", "/s/b", "/d/b"),
    ];
    let outcomes = vec![None, None];
    let backups = vec!["".to_string(), "".to_string()];
    let results = execute_operations(&mut store, &plans, &outcomes, &backups);
    let bid = results[0].batch_id.clone().expect("batch id must be set");
    assert_eq!(bid.len(), 36);
    assert_eq!(results[1].batch_id.as_deref(), Some(bid.as_str()));
    assert_eq!(results[0].id.len(), 36);
    assert_eq!(results[1].id.len(), 36);
    assert_ne!(results[0].id, results[1].id);
}

#[test]
fn delete_success_records_backup_path() {
    let mut store = OperationStore::new();
    let plans = vec![planned(OperationType::Delete, "c.txt", "/s/c", "")];
    let outcomes = vec![None];
    let backups = vec!["/bak/tok-c.txt".to_string()];
    let results = execute_operations(&mut store, &plans, &outcomes, &backups);
    assert_eq!(results[0].backup_path.as_deref(), Some("/bak/tok-c.txt"));
    assert_eq!(results[0].destination_path, None);
}

#[test]
fn delete_failure_records_no_backup_path() {
    let mut store = OperationStore::new();
    let plans = vec![planned(OperationType::Delete, "c.txt", "/s/c", "")];
    let outcomes = vec![Some("busy".to_string())];
    let backups = vec!["/bak/tok-c.txt".to_string()];
    let results = execute_operations(&mut store, &plans, &outcomes, &backups);
    assert_eq!(results[0].backup_path, None);
}

#[test]
fn store_append_failure_leaves_results_authoritative() {
    let mut store = OperationStore::new();
    let plans = vec![planned(OperationType::Move, "a.txt", "/s/a", "/d/a")];
    let outcomes = vec![None];
    let backups = vec!["".to_string()];
    let r1 = execute_operations(&mut store, &plans, &outcomes, &backups);
    let r2 = execute_operations(&mut store, &plans, &outcomes, &backups);
    assert_eq!(r1.len(), 1);
    assert_eq!(r2.len(), 1);
    assert_eq!(store.len(), 2);
}
